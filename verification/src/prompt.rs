//! What the model is told of the warehouse.
use vstd::prelude::*;

use crate::db::DbContext;
use crate::schema;
use crate::schema::ColumnInfo;
use crate::schema::ColumnView;
use crate::schema::EnrichedColumn;
use crate::schema::EnrichedSchema;
use crate::schema::EnrichedTable;
use crate::schema::SchemaView;
use crate::schema::TableView;
use crate::text;

verus! {

// ---------------------------------------------------------------------------
// The largest tables first
// ---------------------------------------------------------------------------

/// The tables, largest first, with one more: it stands behind all that are at
/// least as large.
pub open spec fn insert_by_size(ts: Seq<TableView>, t: TableView) -> Seq<TableView>
    decreases ts.len(),
{
    if ts.len() == 0 {
        seq![t]
    } else if ts.last().row_count >= t.row_count {
        ts.push(t)
    } else {
        insert_by_size(ts.drop_last(), t).push(ts.last())
    }
}

/// The tables, largest first; tables of the same size stay in their order.
pub open spec fn by_size(ts: Seq<TableView>) -> Seq<TableView>
    decreases ts.len(),
{
    if ts.len() == 0 {
        Seq::empty()
    } else {
        insert_by_size(by_size(ts.drop_last()), ts.last())
    }
}

proof fn lemma_insert_at(ts: Seq<TableView>, t: TableView, p: int)
    requires
        0 <= p <= ts.len(),
        forall|k: int| p <= k < ts.len() ==> (#[trigger] ts[k]).row_count < t.row_count,
        p > 0 ==> ts[p - 1].row_count >= t.row_count,
    ensures
        insert_by_size(ts, t) == ts.insert(p, t),
    decreases ts.len(),
{
    if ts.len() == 0 {
        assert(seq![t] == ts.insert(p, t));
    } else if p == ts.len() {
        assert(ts.push(t) == ts.insert(p, t));
    } else {
        assert(ts.last() == ts[ts.len() - 1]);
        lemma_insert_at(ts.drop_last(), t, p);
        assert(ts.drop_last().insert(p, t).push(ts.last()) == ts.insert(p, t));
    }
}

/// The tables stand with the largest first.
pub open spec fn falling(ts: Seq<TableView>) -> bool {
    forall|i: int, j: int|
        0 <= i <= j < ts.len() ==> (#[trigger] ts[i]).row_count >= (#[trigger] ts[j]).row_count
}

proof fn lemma_insert_falls(ts: Seq<TableView>, t: TableView)
    requires
        falling(ts),
    ensures
        falling(insert_by_size(ts, t)),
        insert_by_size(ts, t).to_multiset() == ts.to_multiset().insert(t),
        forall|i: int|
            0 <= i < insert_by_size(ts, t).len() ==> (#[trigger] insert_by_size(
                ts,
                t,
            )[i]).row_count >= t.row_count || exists|k: int|
                0 <= k < ts.len() && #[trigger] ts[k] == insert_by_size(ts, t)[i],
        insert_by_size(ts, t).len() == ts.len() + 1,
    decreases ts.len(),
{
    broadcast use vstd::seq_lib::group_to_multiset_ensures;

    let r = insert_by_size(ts, t);
    if ts.len() == 0 {
        assert(ts.push(t) == r);
    } else if ts.last().row_count >= t.row_count {
        assert(ts.last() == ts[ts.len() - 1]);
        assert forall|i: int| 0 <= i < r.len() implies (#[trigger] r[i]).row_count >= t.row_count
            || exists|k: int| 0 <= k < ts.len() && #[trigger] ts[k] == r[i] by {
            if i < ts.len() {
                assert(ts[i] == r[i]);
            }
        }
    } else {
        let front = ts.drop_last();
        let inner = insert_by_size(front, t);
        assert forall|i: int, j: int| 0 <= i <= j < front.len() implies (#[trigger] front[i]).row_count
            >= (#[trigger] front[j]).row_count by {
            assert(front[i] == ts[i] && front[j] == ts[j]);
        }
        lemma_insert_falls(front, t);
        assert(front.push(ts.last()) == ts);
        assert forall|i: int| 0 <= i < r.len() implies (#[trigger] r[i]).row_count >= t.row_count
            || exists|k: int| 0 <= k < ts.len() && #[trigger] ts[k] == r[i] by {
            if i < inner.len() {
                assert(inner[i] == r[i]);
                if inner[i].row_count < t.row_count {
                    let k = choose|k: int| 0 <= k < front.len() && #[trigger] front[k] == inner[i];
                    assert(ts[k] == r[i]);
                }
            } else {
                assert(ts[ts.len() - 1] == r[i]);
            }
        }
        assert forall|i: int, j: int| 0 <= i <= j < r.len() implies (#[trigger] r[i]).row_count >= (
        #[trigger] r[j]).row_count by {
            if j < inner.len() {
                assert(r[i] == inner[i] && r[j] == inner[j]);
            } else if i < inner.len() {
                assert(r[i] == inner[i]);
                if inner[i].row_count < t.row_count {
                    let k = choose|k: int| 0 <= k < front.len() && #[trigger] front[k] == inner[i];
                    assert(ts[k] == r[i]);
                    assert(ts[ts.len() - 1] == r[j]);
                }
            }
        }
    }
}

/// Ordering the tables by size loses none and adds none, and puts the largest
/// first.
pub proof fn law_largest_first(ts: Seq<TableView>)
    ensures
        falling(by_size(ts)),
        by_size(ts).to_multiset() == ts.to_multiset(),
        by_size(ts).len() == ts.len(),
    decreases ts.len(),
{
    broadcast use vstd::seq_lib::group_to_multiset_ensures;

    if ts.len() > 0 {
        law_largest_first(ts.drop_last());
        lemma_insert_falls(by_size(ts.drop_last()), ts.last());
        assert(ts.drop_last().push(ts.last()) == ts);
    } else {
        assert(by_size(ts) == ts);
    }
}

/// What the tables at these positions hold.
pub open spec fn picked(ts: Seq<TableView>, order: Seq<usize>) -> Seq<TableView> {
    Seq::new(order.len(), |k: int| ts[order[k] as int])
}

/// The positions of the tables, largest first.
fn order_by_size(ts: &Vec<EnrichedTable>) -> (r: Vec<usize>)
    ensures
        picked(text::views(ts@), r@) == by_size(text::views(ts@)),
        r@.len() == ts@.len(),
        forall|k: int| 0 <= k < r@.len() ==> #[trigger] r@[k] < ts@.len(),
{
    let ghost all = text::views(ts@);
    let mut order: Vec<usize> = Vec::new();
    let mut i: usize = 0;
    proof {
        assert(picked(all, order@) == by_size(all.take(0)));
    }
    while i < ts.len()
        invariant
            all == text::views(ts@),
            i <= ts@.len(),
            order@.len() == i,
            forall|k: int| 0 <= k < order@.len() ==> #[trigger] order@[k] < ts@.len(),
            picked(all, order@) == by_size(all.take(i as int)),
        decreases ts@.len() - i,
    {
        let ghost so_far = picked(all, order@);
        let n: i64 = ts[i].row_count;
        let mut p: usize = order.len();
        while p > 0 && ts[order[p - 1]].row_count < n
            invariant
                all == text::views(ts@),
                so_far == picked(all, order@),
                p <= order@.len(),
                forall|k: int| 0 <= k < order@.len() ==> #[trigger] order@[k] < ts@.len(),
                forall|k: int| p <= k < so_far.len() ==> (#[trigger] so_far[k]).row_count < n,
            decreases p,
        {
            proof {
                assert(so_far[p - 1] == ts@[order@[p - 1] as int]@);
            }
            p = p - 1;
        }
        let ghost before = order@;
        proof {
            if p > 0 {
                assert(so_far[p - 1] == ts@[order@[p - 1] as int]@);
            }
            assert(all[i as int] == ts@[i as int]@);
            lemma_insert_at(so_far, all[i as int], p as int);
            assert(all.take(i + 1).drop_last() == all.take(i as int));
        }
        order.insert(p, i);
        proof {
            assert(picked(all, order@) == so_far.insert(p as int, all[i as int]));
            assert forall|k: int| 0 <= k < order@.len() implies #[trigger] order@[k]
                < ts@.len() by {
                if k < p {
                    assert(order@[k] == before[k]);
                } else if k > p {
                    assert(order@[k] == before[k - 1]);
                }
            }
        }
        i = i + 1;
    }
    proof {
        assert(all.take(i as int) == all);
    }
    order
}

// ---------------------------------------------------------------------------
// The schema in words
// ---------------------------------------------------------------------------

/// The most tables that the list of the largest shows.
pub const TABLES_LISTED: usize = 15;

/// The most relationships that are shown.
pub const LINKS_LISTED: usize = 20;

/// The most tables that are shown with their columns.
pub const TABLES_DETAILED: usize = 20;

/// The first `n` elements, or all where there are fewer.
pub open spec fn first_few<A>(s: Seq<A>, n: nat) -> Seq<A> {
    if s.len() <= n {
        s
    } else {
        s.take(n as int)
    }
}

/// The line of a table in the list of the largest.
pub open spec fn size_line(t: TableView) -> Seq<char> {
    "  • `"@ + t.table_name + "` — "@ + schema::comma_number(t.row_count as int) + " rows, "@
        + text::dec(t.column_count) + " cols\n"@
}

/// The line of a relationship.
pub open spec fn link_line(l: schema::Link) -> Seq<char> {
    "  • `"@ + l.0 + "."@ + l.1 + "` → `"@ + l.2 + "`\n"@
}

/// What is said of a column beside its type.
pub open spec fn column_flags(c: ColumnView) -> Seq<char> {
    let reference = if c.is_fk_candidate {
        " [FK"@ + (match c.referenced_table {
            Some(t) => "→"@ + t,
            None => Seq::empty(),
        }) + "]"@
    } else {
        Seq::empty()
    };
    if c.sample_values.len() > 0 {
        reference + " e.g.("@ + text::join(c.sample_values, ", "@) + ")"@
    } else {
        reference
    }
}

/// The line of a column.
pub open spec fn column_line(c: ColumnView) -> Seq<char> {
    "  - "@ + c.name + ": "@ + c.data_type + (if c.is_nullable {
        " NULL?"@
    } else {
        Seq::empty()
    }) + column_flags(c) + "\n"@
}

/// The lines of the columns.
pub open spec fn column_lines(cs: Seq<ColumnView>) -> Seq<Seq<char>> {
    Seq::new(cs.len(), |i: int| column_line(cs[i]))
}

/// A table with its columns.
pub open spec fn table_text(t: TableView) -> Seq<char> {
    "\nTable `"@ + t.table_name + "` ("@ + schema::comma_number(t.row_count as int) + " rows, "@
        + text::dec(t.column_count) + " columns):\n"@ + (match t.date_range {
        Some((a, b)) => "  Date range: "@ + a + " → "@ + b + "\n"@,
        None => Seq::empty(),
    }) + text::concat(column_lines(t.columns))
}

/// The tables among the first `n` that are shown with their columns: those with
/// rows, up to the limit.
pub open spec fn detailed(ts: Seq<TableView>, n: nat) -> Seq<TableView>
    decreases n,
{
    if n == 0 {
        Seq::empty()
    } else {
        let front = detailed(ts, (n - 1) as nat);
        if ts[n - 1].row_count > 0 && front.len() < TABLES_DETAILED {
            front.push(ts[n - 1])
        } else {
            front
        }
    }
}

/// The lines of the largest tables.
pub open spec fn size_lines(ts: Seq<TableView>) -> Seq<Seq<char>> {
    Seq::new(ts.len(), |i: int| size_line(ts[i]))
}

/// The lines of the relationships.
pub open spec fn link_lines(ls: Seq<schema::Link>) -> Seq<Seq<char>> {
    Seq::new(ls.len(), |i: int| link_line(ls[i]))
}

/// The tables with their columns.
pub open spec fn table_texts(ts: Seq<TableView>) -> Seq<Seq<char>> {
    Seq::new(ts.len(), |i: int| table_text(ts[i]))
}

/// An enriched schema in words.
pub open spec fn schema_text(s: SchemaView) -> Seq<char> {
    let sorted = by_size(s.tables);
    "Database Overview: "@ + text::dec(s.total_tables) + " tables\n\n"@
        + "Largest tables by row count:\n"@ + text::concat(
        size_lines(first_few(sorted, TABLES_LISTED as nat)),
    ) + (if s.fk_relationships.len() > 0 {
        "\nKey foreign key relationships (JOIN paths):\n"@ + text::concat(
            link_lines(first_few(s.fk_relationships, LINKS_LISTED as nat)),
        )
    } else {
        Seq::empty()
    }) + "\n--- Key Table Schemas (top 20 by row count) ---\n"@ + text::concat(
        table_texts(detailed(sorted, sorted.len())),
    )
}

fn flags_of(c: &EnrichedColumn) -> (r: String)
    ensures
        r@ == column_flags(c@),
{
    let mut flags = String::new();
    if c.is_fk_candidate {
        let mut s = " [FK".to_owned();
        match &c.referenced_table {
            Some(t) => {
                let arrow = text::plus("→".to_owned(), t.as_str());
                s.append(arrow.as_str());
            },
            None => {
                proof {
                    assert(s@ =~= s@ + Seq::<char>::empty());
                }
            },
        }
        s.append("]");
        flags = s;
    }
    if c.sample_values.len() > 0 {
        flags.append(" e.g.(");
        flags.append(text::join_with(&c.sample_values, ", ").as_str());
        flags.append(")");
    }
    flags
}

fn line_of_column(c: &EnrichedColumn) -> (r: String)
    ensures
        r@ == column_line(c@),
{
    let mut s = "  - ".to_owned();
    s.append(c.name.as_str());
    s.append(": ");
    s.append(c.data_type.as_str());
    proof {
        reveal_strlit("");
        assert(""@ =~= Seq::<char>::empty());
    }
    s.append(
        if c.is_nullable {
            " NULL?"
        } else {
            ""
        },
    );
    s.append(flags_of(c).as_str());
    s.append("\n");
    s
}

fn text_of_table(t: &EnrichedTable) -> (r: String)
    ensures
        r@ == table_text(t@),
{
    let mut s = "\nTable `".to_owned();
    s.append(t.table_name.as_str());
    s.append("` (");
    s.append(DbContext::format_num_comma(t.row_count).as_str());
    s.append(" rows, ");
    s.append(text::nat_text(t.column_count as u128).as_str());
    s.append(" columns):\n");
    let range = match &t.date_range {
        Some((a, b)) => {
            let mut d = "  Date range: ".to_owned();
            d.append(a.as_str());
            d.append(" → ");
            d.append(b.as_str());
            d.append("\n");
            d
        },
        None => String::new(),
    };
    s.append(range.as_str());
    let ghost head = s@;
    let ghost lines = column_lines(t@.columns);
    let mut i: usize = 0;
    proof {
        text::lemma_concat_all(lines);
        assert(head + Seq::<char>::empty() == head);
    }
    while i < t.columns.len()
        invariant
            i <= t.columns@.len(),
            lines == column_lines(text::views(t.columns@)),
            s@ == head + text::concat(lines.take(i as int)),
        decreases t.columns@.len() - i,
    {
        let line = line_of_column(&t.columns[i]);
        proof {
            text::lemma_concat_next(lines, i as int);
            assert(head + (text::concat(lines.take(i as int)) + line@) == head + text::concat(
                lines.take(i as int),
            ) + line@);
        }
        s.append(line.as_str());
        i = i + 1;
    }
    s
}

fn line_of_size(t: &EnrichedTable) -> (r: String)
    ensures
        r@ == size_line(t@),
{
    let mut s = "  • `".to_owned();
    s.append(t.table_name.as_str());
    s.append("` — ");
    s.append(DbContext::format_num_comma(t.row_count).as_str());
    s.append(" rows, ");
    s.append(text::nat_text(t.column_count as u128).as_str());
    s.append(" cols\n");
    s
}

fn lines_of_sizes(ts: &Vec<EnrichedTable>, order: &Vec<usize>) -> (r: String)
    requires
        forall|k: int| 0 <= k < order@.len() ==> #[trigger] order@[k] < ts@.len(),
    ensures
        r@ == text::concat(
            size_lines(first_few(picked(text::views(ts@), order@), TABLES_LISTED as nat)),
        ),
{
    let ghost all = picked(text::views(ts@), order@);
    let ghost lines = size_lines(first_few(all, TABLES_LISTED as nat));
    let mut s = String::new();
    let mut i: usize = 0;
    proof {
        text::lemma_concat_all(lines);
    }
    while i < order.len() && i < TABLES_LISTED
        invariant
            forall|k: int| 0 <= k < order@.len() ==> #[trigger] order@[k] < ts@.len(),
            all == picked(text::views(ts@), order@),
            lines == size_lines(first_few(all, TABLES_LISTED as nat)),
            i <= order@.len(),
            i <= TABLES_LISTED,
            s@ == text::concat(lines.take(i as int)),
        decreases order@.len() - i,
    {
        let line = line_of_size(&ts[order[i]]);
        proof {
            text::lemma_concat_next(lines, i as int);
            assert(lines[i as int] == size_line(all[i as int]));
        }
        s.append(line.as_str());
        i = i + 1;
    }
    proof {
        assert(lines.len() == i);
        text::lemma_concat_all(lines);
    }
    s
}

fn lines_of_links(ls: &Vec<(String, String, String)>) -> (r: String)
    ensures
        r@ == text::concat(
            link_lines(first_few(schema::link_views(ls@), LINKS_LISTED as nat)),
        ),
{
    let ghost all = schema::link_views(ls@);
    let ghost lines = link_lines(first_few(all, LINKS_LISTED as nat));
    let mut s = String::new();
    let mut i: usize = 0;
    proof {
        text::lemma_concat_all(lines);
    }
    while i < ls.len() && i < LINKS_LISTED
        invariant
            all == schema::link_views(ls@),
            lines == link_lines(first_few(all, LINKS_LISTED as nat)),
            i <= ls@.len(),
            i <= LINKS_LISTED,
            s@ == text::concat(lines.take(i as int)),
        decreases ls@.len() - i,
    {
        let mut line = "  • `".to_owned();
        line.append(ls[i].0.as_str());
        line.append(".");
        line.append(ls[i].1.as_str());
        line.append("` → `");
        line.append(ls[i].2.as_str());
        line.append("`\n");
        proof {
            text::lemma_concat_next(lines, i as int);
            assert(lines[i as int] == link_line(all[i as int]));
        }
        s.append(line.as_str());
        i = i + 1;
    }
    proof {
        assert(lines.len() == i);
        text::lemma_concat_all(lines);
    }
    s
}

fn texts_of_tables(ts: &Vec<EnrichedTable>, order: &Vec<usize>) -> (r: String)
    requires
        forall|k: int| 0 <= k < order@.len() ==> #[trigger] order@[k] < ts@.len(),
    ensures
        r@ == text::concat(
            table_texts(detailed(picked(text::views(ts@), order@), order@.len())),
        ),
{
    let ghost all = picked(text::views(ts@), order@);
    let mut s = String::new();
    let mut shown: usize = 0;
    let mut i: usize = 0;
    proof {
        assert(table_texts(detailed(all, 0)).len() == 0);
    }
    while i < order.len()
        invariant
            forall|k: int| 0 <= k < order@.len() ==> #[trigger] order@[k] < ts@.len(),
            all == picked(text::views(ts@), order@),
            i <= order@.len(),
            shown == detailed(all, i as nat).len(),
            shown <= TABLES_DETAILED,
            s@ == text::concat(table_texts(detailed(all, i as nat))),
        decreases order@.len() - i,
    {
        let t = &ts[order[i]];
        proof {
            assert(all[i as int] == t@);
        }
        if t.row_count > 0 && shown < TABLES_DETAILED {
            let body = text_of_table(t);
            proof {
                let before = table_texts(detailed(all, i as nat));
                let after = table_texts(detailed(all, (i + 1) as nat));
                assert(after.drop_last() == before);
            }
            s.append(body.as_str());
            shown = shown + 1;
        }
        i = i + 1;
    }
    s
}

impl DbContext {
    /// An enriched schema in words: the largest tables, the relationships, and
    /// the columns of the largest tables that have rows.
    pub fn format_enriched_schema(schema: &EnrichedSchema) -> (r: String)
        requires
            forall|i: int|
                0 <= i < schema.tables@.len() ==> (#[trigger] schema.tables@[i]).row_count
                    > i64::MIN,
        ensures
            r@ == schema_text(schema@),
    {
        let order = order_by_size(&schema.tables);
        let mut out = "Database Overview: ".to_owned();
        out.append(text::nat_text(schema.total_tables as u128).as_str());
        out.append(" tables\n\n");
        out.append("Largest tables by row count:\n");
        out.append(lines_of_sizes(&schema.tables, &order).as_str());
        let links = if schema.fk_relationships.len() > 0 {
            text::plus(
                "\nKey foreign key relationships (JOIN paths):\n".to_owned(),
                lines_of_links(&schema.fk_relationships).as_str(),
            )
        } else {
            String::new()
        };
        out.append(links.as_str());
        out.append("\n--- Key Table Schemas (top 20 by row count) ---\n");
        out.append(texts_of_tables(&schema.tables, &order).as_str());
        out
    }
}

// ---------------------------------------------------------------------------
// The key tables in brief
// ---------------------------------------------------------------------------

/// The tables that the brief overview tells of.
pub open spec fn key_tables() -> Seq<Seq<char>> {
    seq![
        "player"@,
        "team"@,
        "game"@,
        "common_player_info"@,
        "player_game_stats"@,
        "play_by_play"@,
        "line_score"@,
        "draft_history"@,
    ]
}

/// The tables that the overview for a conversation tells of.
pub open spec fn agent_tables() -> Seq<Seq<char>> {
    key_tables() + seq![
        "team_history"@,
        "team_details"@,
        "game_summary"@,
        "player_career_stats"@,
        "player_clutch_stats"@,
        "player_shooting_stats"@,
        "player_defensive_stats"@,
        "player_passing_stats"@,
        "player_rebounding_stats"@,
        "team_stats"@,
        "award"@,
        "coach"@,
        "series_post"@,
    ]
}

fn add_name(list: &mut Vec<String>, name: &str)
    ensures
        text::views(final(list)@) == text::views(old(list)@).push(name@),
{
    let ghost before = list@;
    list.push(name.to_owned());
    proof {
        assert(text::views(list@) == text::views(before).push(name@));
    }
}

/// The tables that the brief overview tells of.
pub fn key_table_names() -> (r: Vec<String>)
    ensures
        text::views(r@) == key_tables(),
{
    let mut v: Vec<String> = Vec::new();
    add_name(&mut v, "player");
    add_name(&mut v, "team");
    add_name(&mut v, "game");
    add_name(&mut v, "common_player_info");
    add_name(&mut v, "player_game_stats");
    add_name(&mut v, "play_by_play");
    add_name(&mut v, "line_score");
    add_name(&mut v, "draft_history");
    proof {
        assert(text::views(v@) =~= key_tables());
    }
    v
}

/// The tables that the overview for a conversation tells of.
pub fn agent_table_names() -> (r: Vec<String>)
    ensures
        text::views(r@) == agent_tables(),
{
    let mut v = key_table_names();
    add_name(&mut v, "team_history");
    add_name(&mut v, "team_details");
    add_name(&mut v, "game_summary");
    add_name(&mut v, "player_career_stats");
    add_name(&mut v, "player_clutch_stats");
    add_name(&mut v, "player_shooting_stats");
    add_name(&mut v, "player_defensive_stats");
    add_name(&mut v, "player_passing_stats");
    add_name(&mut v, "player_rebounding_stats");
    add_name(&mut v, "team_stats");
    add_name(&mut v, "award");
    add_name(&mut v, "coach");
    add_name(&mut v, "series_post");
    proof {
        assert(text::views(v@) =~= agent_tables());
    }
    v
}

/// A column with its type.
pub open spec fn typed_column(c: ColumnInfo) -> Seq<char> {
    c.name@ + ": "@ + c.data_type@
}

/// The columns with their types.
pub open spec fn typed_columns(cs: Seq<ColumnInfo>) -> Seq<Seq<char>> {
    Seq::new(cs.len(), |i: int| typed_column(cs[i]))
}

/// A table of the brief overview.
pub open spec fn brief_table(t: (String, Vec<ColumnInfo>)) -> Seq<char> {
    "\n• Table `"@ + t.0@ + "` ("@ + text::dec(t.1@.len()) + " columns):\n  "@ + text::join(
        typed_columns(t.1@),
        ", "@,
    ) + "\n"@
}

/// The tables of the brief overview.
pub open spec fn brief_tables(ts: Seq<(String, Vec<ColumnInfo>)>) -> Seq<Seq<char>> {
    Seq::new(ts.len(), |i: int| brief_table(ts[i]))
}

/// The brief overview, where `ts` are the tables that could be described.
pub open spec fn summary_text(ts: Seq<(String, Vec<ColumnInfo>)>) -> Seq<char> {
    "Core Database Schema (Key Entities):\n"@ + text::concat(brief_tables(ts))
        + "\nNote: Over 580 total tables exist. Use `list_tables`, `search_tables`, or `describe_table` to explore schema elements."@
}

fn columns_in_brief(cs: &Vec<ColumnInfo>) -> (r: String)
    ensures
        r@ == text::join(typed_columns(cs@), ", "@),
{
    let ghost want = typed_columns(cs@);
    let mut parts: Vec<String> = Vec::new();
    let mut i: usize = 0;
    while i < cs.len()
        invariant
            want == typed_columns(cs@),
            i <= cs@.len(),
            text::views(parts@) == want.take(i as int),
        decreases cs@.len() - i,
    {
        let mut p = cs[i].name.clone();
        p.append(": ");
        p.append(cs[i].data_type.as_str());
        let ghost before = parts@;
        parts.push(p);
        proof {
            assert(text::views(parts@) == text::views(before).push(p@));
            assert(want.take(i + 1) == want.take(i as int).push(p@));
        }
        i = i + 1;
    }
    proof {
        assert(want.take(i as int) == want);
    }
    text::join_with(&parts, ", ")
}

impl DbContext {
    /// The brief overview of the key tables that could be described.
    pub fn get_schema_summary(ts: &Vec<(String, Vec<ColumnInfo>)>) -> (r: String)
        ensures
            r@ == summary_text(ts@),
    {
        let mut s = "Core Database Schema (Key Entities):\n".to_owned();
        let ghost head = s@;
        let ghost parts = brief_tables(ts@);
        let mut i: usize = 0;
        proof {
            text::lemma_concat_all(parts);
            assert(head + Seq::<char>::empty() == head);
        }
        while i < ts.len()
            invariant
                parts == brief_tables(ts@),
                i <= ts@.len(),
                s@ == head + text::concat(parts.take(i as int)),
            decreases ts@.len() - i,
        {
            let mut line = "\n• Table `".to_owned();
            line.append(ts[i].0.as_str());
            line.append("` (");
            line.append(text::nat_text(ts[i].1.len() as u128).as_str());
            line.append(" columns):\n  ");
            line.append(columns_in_brief(&ts[i].1).as_str());
            line.append("\n");
            proof {
                text::lemma_concat_next(parts, i as int);
                assert(head + (text::concat(parts.take(i as int)) + line@) == head + text::concat(
                    parts.take(i as int),
                ) + line@);
            }
            s.append(line.as_str());
            i = i + 1;
        }
        s.append(
            "\nNote: Over 580 total tables exist. Use `list_tables`, `search_tables`, or `describe_table` to explore schema elements.",
        );
        s
    }
}

// ---------------------------------------------------------------------------
// What the prompt tells
// ---------------------------------------------------------------------------

proof fn lemma_same_size_kept(ts: Seq<TableView>, t: TableView, n: i64)
    ensures
        insert_by_size(ts, t).filter(|x: TableView| x.row_count == n) == (if t.row_count == n {
            ts.filter(|x: TableView| x.row_count == n).push(t)
        } else {
            ts.filter(|x: TableView| x.row_count == n)
        }),
    decreases ts.len(),
{
    reveal(Seq::filter);
    let p = |x: TableView| x.row_count == n;
    if ts.len() == 0 {
        assert(seq![t].drop_last() =~= ts);
        assert(ts.filter(p) =~= Seq::<TableView>::empty());
        if t.row_count == n {
            assert(seq![t].filter(p) =~= Seq::<TableView>::empty().push(t));
        } else {
            assert(seq![t].filter(p) =~= Seq::<TableView>::empty());
        }
    } else if ts.last().row_count >= t.row_count {
        assert(ts.push(t).drop_last() =~= ts);
    } else {
        let inner = insert_by_size(ts.drop_last(), t);
        lemma_same_size_kept(ts.drop_last(), t, n);
        assert(inner.push(ts.last()).drop_last() =~= inner);
    }
}

/// Tables of the same size stay in their order.
pub proof fn law_tables_of_a_size_stay_in_order(ts: Seq<TableView>, n: i64)
    ensures
        by_size(ts).filter(|x: TableView| x.row_count == n) == ts.filter(
            |x: TableView| x.row_count == n,
        ),
    decreases ts.len(),
{
    reveal(Seq::filter);
    if ts.len() > 0 {
        law_tables_of_a_size_stay_in_order(ts.drop_last(), n);
        lemma_same_size_kept(by_size(ts.drop_last()), ts.last(), n);
    } else {
        assert(ts =~= Seq::<TableView>::empty());
    }
}

/// A table's line tells its name, its rows and its columns; a relationship's line
/// tells the table, the column, and the table it refers to, in this order.
pub proof fn law_lines_tell_their_tables(t: TableView, l: schema::Link)
    ensures
        text::contains(
            size_line(t),
            t.table_name + "` — "@ + schema::comma_number(t.row_count as int) + " rows, "@
                + text::dec(t.column_count) + " cols\n"@,
        ),
        text::contains(link_line(l), l.0 + "."@ + l.1 + "` → `"@ + l.2),
{
    let a = "  • `"@;
    let f = t.table_name + "` — "@ + schema::comma_number(t.row_count as int) + " rows, "@
        + text::dec(t.column_count) + " cols\n"@;
    assert(size_line(t) =~= a + f + Seq::<char>::empty());
    text::lemma_middle(a, f, Seq::empty());
    let g = l.0 + "."@ + l.1 + "` → `"@ + l.2;
    assert(link_line(l) =~= a + g + "`\n"@);
    text::lemma_middle(a, g, "`\n"@);
}

/// A column's line tells its name and its type, that it may be null exactly where it
/// may, the table that it refers to, and its sample.
pub proof fn law_lines_tell_their_columns(c: ColumnView)
    ensures
        text::begins(
            column_line(c),
            "  - "@ + c.name + ": "@ + c.data_type + (if c.is_nullable {
                " NULL?"@
            } else {
                Seq::empty()
            }),
        ),
        c.is_fk_candidate ==> (c.referenced_table matches Some(t) ==> text::contains(
            column_line(c),
            " [FK"@ + ("→"@ + t) + "]"@,
        )),
        c.sample_values.len() > 0 ==> text::contains(
            column_line(c),
            " e.g.("@ + text::join(c.sample_values, ", "@) + ")"@,
        ),
        !c.is_fk_candidate && c.sample_values.len() == 0 ==> column_flags(c).len() == 0,
{
    let null = if c.is_nullable {
        " NULL?"@
    } else {
        Seq::<char>::empty()
    };
    let head = "  - "@ + c.name + ": "@ + c.data_type + null;
    let flags = column_flags(c);
    let line = column_line(c);
    assert(line =~= head + (flags + "\n"@));
    text::law_beginnings_and_ends(line, head);
    let reference = if c.is_fk_candidate {
        " [FK"@ + (match c.referenced_table {
            Some(t) => "→"@ + t,
            None => Seq::empty(),
        }) + "]"@
    } else {
        Seq::empty()
    };
    let eg = " e.g.("@ + text::join(c.sample_values, ", "@) + ")"@;
    if c.sample_values.len() > 0 {
        assert(flags =~= reference + eg);
        assert(line =~= head + reference + (eg + "\n"@));
        text::lemma_middle(head, reference, eg + "\n"@);
        assert(line =~= (head + reference) + eg + "\n"@);
        text::lemma_middle(head + reference, eg, "\n"@);
    } else {
        assert(line =~= head + reference + "\n"@);
        text::lemma_middle(head, reference, "\n"@);
    }
}

/// A table in full tells its name, its size, its range of dates and each of its
/// columns.
pub proof fn law_tables_tell_their_columns(t: TableView, i: int)
    ensures
        text::begins(
            table_text(t),
            "\nTable `"@ + t.table_name + "` ("@ + schema::comma_number(t.row_count as int)
                + " rows, "@ + text::dec(t.column_count) + " columns):\n"@,
        ),
        t.date_range matches Some((a, b)) ==> text::contains(
            table_text(t),
            "  Date range: "@ + a + " → "@ + b + "\n"@,
        ),
        0 <= i < t.columns.len() ==> text::contains(table_text(t), column_line(t.columns[i])),
{
    let head = "\nTable `"@ + t.table_name + "` ("@ + schema::comma_number(t.row_count as int)
        + " rows, "@ + text::dec(t.column_count) + " columns):\n"@;
    let range = match t.date_range {
        Some((a, b)) => "  Date range: "@ + a + " → "@ + b + "\n"@,
        None => Seq::<char>::empty(),
    };
    let lines = column_lines(t.columns);
    let rest = text::concat(lines);
    let all = table_text(t);
    assert(all =~= head + range + rest);
    text::lemma_middle(head, range, rest);
    assert(all =~= head + (range + rest));
    text::law_beginnings_and_ends(all, head);
    if 0 <= i < t.columns.len() {
        text::law_pieces_stand_in_the_whole(lines, ", "@, i);
        lemma_within(head + range, rest, Seq::empty(), lines[i]);
        assert(all =~= (head + range) + rest + Seq::<char>::empty());
    }
}

proof fn lemma_within(before: Seq<char>, s: Seq<char>, behind: Seq<char>, p: Seq<char>)
    requires
        text::contains(s, p),
    ensures
        text::contains(before + s + behind, p),
{
    let i = choose|i: int| text::occurs_at(s, p, i);
    let a = s.take(i);
    let b = s.skip(i + p.len());
    assert(s =~= a + p + b) by {
        assert(s.subrange(i, i + p.len()) == p);
        assert(s =~= a + s.subrange(i, i + p.len()) + b);
    }
    assert(before + s + behind =~= (before + a) + p + (b + behind));
    text::lemma_middle(before + a, p, b + behind);
}

/// The tables in full are those with rows, in the order of the list, as many as
/// there are, up to twenty.
pub proof fn law_tables_with_rows_are_detailed(ts: Seq<TableView>, n: nat)
    requires
        n <= ts.len(),
    ensures
        detailed(ts, n).len() <= 20,
        detailed(ts, n) == first_few(ts.take(n as int).filter(|t: TableView| t.row_count > 0), 20),
    decreases n,
{
    reveal(Seq::filter);
    let p = |t: TableView| t.row_count > 0;
    if n > 0 {
        law_tables_with_rows_are_detailed(ts, (n - 1) as nat);
        let part = ts.take(n as int);
        assert(part.drop_last() =~= ts.take(n - 1));
        let before = ts.take(n - 1).filter(p);
        let after = part.filter(p);
        if ts[n - 1].row_count > 0 {
            assert(after == before.push(ts[n - 1]));
            if before.len() >= 20 {
                assert(after.take(20) =~= first_few(before, 20));
            }
        }
    } else {
        assert(ts.take(0) =~= Seq::<TableView>::empty());
        assert(detailed(ts, 0) =~= ts.take(0).filter(p));
    }
}

/// A schema in words tells how many tables there are, the fifteen largest by size,
/// the first twenty relationships, and in full the largest tables that have rows.
pub proof fn law_schemas_are_told(s: SchemaView, i: int)
    ensures
        text::begins(
            schema_text(s),
            "Database Overview: "@ + text::dec(s.total_tables) + " tables\n\n"@,
        ),
        0 <= i < s.tables.len() && i < 15 ==> text::contains(
            schema_text(s),
            size_line(by_size(s.tables)[i]),
        ),
        0 <= i < s.fk_relationships.len() && i < 20 ==> text::contains(
            schema_text(s),
            link_line(s.fk_relationships[i]),
        ),
        0 <= i < detailed(by_size(s.tables), s.tables.len()).len() ==> text::contains(
            schema_text(s),
            table_text(detailed(by_size(s.tables), s.tables.len())[i]),
        ),
        size_lines(first_few(by_size(s.tables), TABLES_LISTED as nat)).len() <= 15,
        link_lines(first_few(s.fk_relationships, LINKS_LISTED as nat)).len() <= 20,
{
    let sorted = by_size(s.tables);
    law_largest_first(s.tables);
    let head = "Database Overview: "@ + text::dec(s.total_tables) + " tables\n\n"@;
    let title = "Largest tables by row count:\n"@;
    let sizes = size_lines(first_few(sorted, TABLES_LISTED as nat));
    let one = text::concat(sizes);
    let key = "\nKey foreign key relationships (JOIN paths):\n"@;
    let ls = link_lines(first_few(s.fk_relationships, LINKS_LISTED as nat));
    let links = if s.fk_relationships.len() > 0 {
        key + text::concat(ls)
    } else {
        Seq::<char>::empty()
    };
    let mid = "\n--- Key Table Schemas (top 20 by row count) ---\n"@;
    let ts = table_texts(detailed(sorted, sorted.len()));
    let full = text::concat(ts);
    let all = schema_text(s);
    assert(all =~= head + title + one + links + mid + full);
    assert(all =~= head + (title + one + links + mid + full));
    text::law_beginnings_and_ends(all, head);
    if 0 <= i < s.tables.len() && i < 15 {
        text::law_pieces_stand_in_the_whole(sizes, key, i);
        assert(sizes[i] == size_line(sorted[i]));
        lemma_within(head + title, one, links + mid + full, sizes[i]);
        assert(all =~= (head + title) + one + (links + mid + full));
    }
    if 0 <= i < s.fk_relationships.len() && i < 20 {
        text::law_pieces_stand_in_the_whole(ls, key, i);
        assert(ls[i] == link_line(s.fk_relationships[i]));
        lemma_within(head + title + one + key, text::concat(ls), mid + full, ls[i]);
        assert(all =~= (head + title + one + key) + text::concat(ls) + (mid + full));
    }
    if 0 <= i < ts.len() {
        text::law_pieces_stand_in_the_whole(ts, key, i);
        lemma_within(head + title + one + links + mid, full, Seq::empty(), ts[i]);
        assert(all =~= (head + title + one + links + mid) + full + Seq::<char>::empty());
    }
}

/// The brief overview tells every table that could be described, with its name, the
/// number of its columns, and each column with its type.
pub proof fn law_overviews_tell_every_table(
    ts: Seq<(String, Vec<ColumnInfo>)>,
    i: int,
    j: int,
)
    requires
        0 <= i < ts.len(),
    ensures
        text::contains(summary_text(ts), brief_table(ts[i])),
        text::begins(
            brief_table(ts[i]),
            "\n• Table `"@ + ts[i].0@ + "` ("@ + text::dec(ts[i].1@.len()) + " columns):\n  "@,
        ),
        0 <= j < ts[i].1@.len() ==> text::contains(
            brief_table(ts[i]),
            ts[i].1@[j].name@ + ": "@ + ts[i].1@[j].data_type@,
        ),
{
    let head = "Core Database Schema (Key Entities):\n"@;
    let tail =
        "\nNote: Over 580 total tables exist. Use `list_tables`, `search_tables`, or `describe_table` to explore schema elements."@;
    let parts = brief_tables(ts);
    text::law_pieces_stand_in_the_whole(parts, ", "@, i);
    lemma_within(head, text::concat(parts), tail, parts[i]);
    let t = ts[i];
    let first = "\n• Table `"@ + t.0@ + "` ("@ + text::dec(t.1@.len()) + " columns):\n  "@;
    let cs = typed_columns(t.1@);
    let joined = text::join(cs, ", "@);
    assert(brief_table(t) =~= first + joined + "\n"@);
    assert(brief_table(t) =~= first + (joined + "\n"@));
    text::law_beginnings_and_ends(brief_table(t), first);
    if 0 <= j < t.1@.len() {
        text::law_pieces_stand_in_the_whole(cs, ", "@, j);
        lemma_within(first, joined, "\n"@, cs[j]);
    }
}

/// The overview for a conversation tells of all the tables that the brief one tells
/// of, and of more behind them; both tell of the players, the teams and the games.
pub proof fn law_overviews_grow()
    ensures
        key_tables().is_prefix_of(agent_tables()),
        key_tables().len() == 8,
        agent_tables().len() == 21,
        text::among(key_tables(), "player"@),
        text::among(key_tables(), "team"@),
        text::among(key_tables(), "game"@),
        text::among(key_tables(), "player_game_stats"@),
{
    assert(key_tables()[0] == "player"@ && key_tables()[1] == "team"@);
    assert(key_tables()[2] == "game"@ && key_tables()[4] == "player_game_stats"@);
}

}
