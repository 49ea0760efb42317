//! The SQL behind the analysis tools.
use vstd::prelude::*;

use crate::text;

verus! {

/// A text between single quotes, with those in it doubled, as SQL writes a
/// string.
pub open spec fn literal(s: Seq<char>) -> Seq<char> {
    "'"@ + text::replace(s, '\'', "''"@) + "'"@
}

/// A text between single quotes, with those in it doubled, as SQL writes a
/// string.
pub fn quote_literal(s: &str) -> (r: String)
    ensures
        r@ == literal(s@),
{
    let mut q = "'".to_owned();
    q.append(text::replace_char(s, '\'', "''").as_str());
    q.append("'");
    q
}

/// Whatever a user wrote stays inside its string: a string in SQL is read back
/// as it was, whatever quotes it holds, and what follows it stays outside,
/// unless that begins with a single quote.
pub proof fn law_literal_reads_back(s: Seq<char>, rest: Seq<char>)
    requires
        rest.len() > 0 ==> rest[0] != '\'',
    ensures
        literal(s)[0] == '\'',
        text::read_quoted((literal(s) + rest).skip(1), '\'') == Some((s, rest)),
{
    reveal_strlit("'");
    reveal_strlit("''");
    assert("''"@ =~= seq!['\'', '\'']);
    assert(literal(s) =~= text::quoted(s, '\''));
    text::law_quoted_reads_back(s, '\'', rest);
}

/// A condition that a column equals a string, behind `before`; nothing where
/// there is no string.
pub open spec fn condition(before: Seq<char>, s: Option<Seq<char>>, behind: Seq<char>) -> Seq<
    char,
> {
    match s {
        Some(x) => before + literal(x) + behind,
        None => Seq::empty(),
    }
}

/// A condition that a column equals a string; nothing where there is no string.
pub fn condition_on(before: &str, s: &Option<String>, behind: &str) -> (r: String)
    ensures
        r@ == condition(before@, crate::json::opt_text(*s), behind@),
{
    match s {
        Some(x) => {
            let mut c = before.to_owned();
            c.append(quote_literal(x.as_str()).as_str());
            c.append(behind);
            c
        },
        None => String::new(),
    }
}

/// The query that compares two players season by season.
pub open spec fn players_compared(p1: Seq<char>, p2: Seq<char>, filter: Seq<char>) -> Seq<char> {
    "SELECT player_name, season_id, SUM(pts) as total_pts"@
        + ", ROUND(AVG(pts),1) as ppg"@
        + ", ROUND(AVG(reb),1) as rpg"@
        + ", ROUND(AVG(ast),1) as apg"@
        + ", COUNT(*) as games"@
        + " FROM player_game_stats WHERE player_name IN ("@
        + literal(p1)
        + ", "@
        + literal(p2)
        + ")"@
        + filter
        + " GROUP BY player_name, season_id"@
        + " ORDER BY player_name, season_id"@
}

/// The query that compares two players season by season.
pub fn players_compared_query(p1: &str, p2: &str, filter: &str) -> (r: String)
    ensures
        r@ == players_compared(p1@, p2@, filter@),
{
    let mut s = "SELECT player_name, season_id, SUM(pts) as total_pts".to_owned();
    s.append(", ROUND(AVG(pts),1) as ppg");
    s.append(", ROUND(AVG(reb),1) as rpg");
    s.append(", ROUND(AVG(ast),1) as apg");
    s.append(", COUNT(*) as games");
    s.append(" FROM player_game_stats WHERE player_name IN (");
    s.append(quote_literal(p1).as_str());
    s.append(", ");
    s.append(quote_literal(p2).as_str());
    s.append(")");
    s.append(filter);
    s.append(" GROUP BY player_name, season_id");
    s.append(" ORDER BY player_name, season_id");
    s
}

/// The query that compares two teams season by season.
pub open spec fn teams_compared(t1: Seq<char>, t2: Seq<char>, filter: Seq<char>) -> Seq<char> {
    "SELECT team_name, season_id, SUM(pts) as total_pts"@
        + ", ROUND(AVG(pts),1) as ppg"@
        + ", SUM(wins) as wins"@
        + ", SUM(losses) as losses"@
        + " FROM team_stats WHERE team_name IN ("@
        + literal(t1)
        + ", "@
        + literal(t2)
        + ")"@
        + filter
        + " GROUP BY team_name, season_id"@
        + " ORDER BY team_name, season_id"@
}

/// The query that compares two teams season by season.
pub fn teams_compared_query(t1: &str, t2: &str, filter: &str) -> (r: String)
    ensures
        r@ == teams_compared(t1@, t2@, filter@),
{
    let mut s = "SELECT team_name, season_id, SUM(pts) as total_pts".to_owned();
    s.append(", ROUND(AVG(pts),1) as ppg");
    s.append(", SUM(wins) as wins");
    s.append(", SUM(losses) as losses");
    s.append(" FROM team_stats WHERE team_name IN (");
    s.append(quote_literal(t1).as_str());
    s.append(", ");
    s.append(quote_literal(t2).as_str());
    s.append(")");
    s.append(filter);
    s.append(" GROUP BY team_name, season_id");
    s.append(" ORDER BY team_name, season_id");
    s
}

/// The query for a player's longest winning streaks: the games between two
/// losses share the number of losses up to them, and the wins of each number are
/// one streak.
pub open spec fn win_streaks(player: Seq<char>) -> Seq<char> {
    "WITH game_flags AS ( SELECT game_id, game_date"@
        + ", CASE WHEN team_score > opp_score THEN 1 ELSE 0 END as won"@
        + " FROM player_game_stats WHERE player_name = "@
        + literal(player)
        + " ), streak_groups AS ( SELECT *"@
        + ", SUM(CASE WHEN won = 0 THEN 1 ELSE 0 END) OVER (ORDER BY game_date) as grp"@
        + " FROM game_flags ) SELECT MIN(game_date) as streak_start, MAX(game_date) as streak_end, COUNT(*) as streak_length"@
        + " FROM streak_groups WHERE won = 1 GROUP BY grp"@
        + " ORDER BY streak_length DESC LIMIT 10"@
}

/// The query for a player's longest winning streaks.
pub fn win_streaks_query(player: &str) -> (r: String)
    ensures
        r@ == win_streaks(player@),
{
    let mut s = "WITH game_flags AS ( SELECT game_id, game_date".to_owned();
    s.append(", CASE WHEN team_score > opp_score THEN 1 ELSE 0 END as won");
    s.append(" FROM player_game_stats WHERE player_name = ");
    s.append(quote_literal(player).as_str());
    s.append(" ), streak_groups AS ( SELECT *");
    s.append(", SUM(CASE WHEN won = 0 THEN 1 ELSE 0 END) OVER (ORDER BY game_date) as grp");
    s.append(" FROM game_flags ) SELECT MIN(game_date) as streak_start, MAX(game_date) as streak_end, COUNT(*) as streak_length");
    s.append(" FROM streak_groups WHERE won = 1 GROUP BY grp");
    s.append(" ORDER BY streak_length DESC LIMIT 10");
    s
}

/// The query for a player's longest streaks of games in which a figure reaches
/// a threshold: the games between two misses share the number of misses up to
/// them, and the hits of each number are one streak.
pub open spec fn streaks(column: Seq<char>, threshold: Seq<char>, player: Seq<char>) -> Seq<char> {
    "WITH game_flags AS ( SELECT game_id, game_date, "@
        + column
        + ", CASE WHEN "@
        + column
        + " >= "@
        + threshold
        + " THEN 1 ELSE 0 END as above"@
        + " FROM player_game_stats WHERE player_name = "@
        + literal(player)
        + " ), streak_groups AS ( SELECT *"@
        + ", SUM(CASE WHEN above = 0 THEN 1 ELSE 0 END) OVER (ORDER BY game_date) as grp"@
        + " FROM game_flags ) SELECT MIN(game_date) as streak_start, MAX(game_date) as streak_end, COUNT(*) as streak_length"@
        + ", MIN("@
        + column
        + ") as min_val"@
        + ", MAX("@
        + column
        + ") as max_val"@
        + " FROM streak_groups WHERE above = 1 GROUP BY grp"@
        + " ORDER BY streak_length DESC LIMIT 10"@
}

/// The query for a player's longest streaks of games in which a figure reaches
/// a threshold.
pub fn streaks_query(column: &str, threshold: &str, player: &str) -> (r: String)
    ensures
        r@ == streaks(column@, threshold@, player@),
{
    let mut s = "WITH game_flags AS ( SELECT game_id, game_date, ".to_owned();
    s.append(column);
    s.append(", CASE WHEN ");
    s.append(column);
    s.append(" >= ");
    s.append(threshold);
    s.append(" THEN 1 ELSE 0 END as above");
    s.append(" FROM player_game_stats WHERE player_name = ");
    s.append(quote_literal(player).as_str());
    s.append(" ), streak_groups AS ( SELECT *");
    s.append(", SUM(CASE WHEN above = 0 THEN 1 ELSE 0 END) OVER (ORDER BY game_date) as grp");
    s.append(" FROM game_flags ) SELECT MIN(game_date) as streak_start, MAX(game_date) as streak_end, COUNT(*) as streak_length");
    s.append(", MIN(");
    s.append(column);
    s.append(") as min_val");
    s.append(", MAX(");
    s.append(column);
    s.append(") as max_val");
    s.append(" FROM streak_groups WHERE above = 1 GROUP BY grp");
    s.append(" ORDER BY streak_length DESC LIMIT 10");
    s
}

/// The query for a player's career and best seasons.
pub open spec fn profile(player: Seq<char>) -> Seq<char> {
    "SELECT 'career_summary' as section, player_name, COUNT(*) as games, SUM(pts) as total_pts"@
        + ", ROUND(AVG(pts),1) as ppg"@
        + ", ROUND(AVG(reb),1) as rpg"@
        + ", ROUND(AVG(ast),1) as apg"@
        + " FROM player_game_stats WHERE player_name = "@
        + literal(player)
        + " GROUP BY player_name"@
        + " UNION ALL SELECT 'best_season' as section, player_name, season_id as games, SUM(pts) as total_pts"@
        + ", ROUND(AVG(pts),1) as ppg"@
        + ", ROUND(AVG(reb),1) as rpg"@
        + ", ROUND(AVG(ast),1) as apg"@
        + " FROM player_game_stats WHERE player_name = "@
        + literal(player)
        + " GROUP BY player_name, season_id"@
        + " ORDER BY total_pts DESC LIMIT 5"@
}

/// The query for a player's career and best seasons.
pub fn profile_query(player: &str) -> (r: String)
    ensures
        r@ == profile(player@),
{
    let mut s = "SELECT 'career_summary' as section, player_name, COUNT(*) as games, SUM(pts) as total_pts".to_owned();
    s.append(", ROUND(AVG(pts),1) as ppg");
    s.append(", ROUND(AVG(reb),1) as rpg");
    s.append(", ROUND(AVG(ast),1) as apg");
    s.append(" FROM player_game_stats WHERE player_name = ");
    s.append(quote_literal(player).as_str());
    s.append(" GROUP BY player_name");
    s.append(" UNION ALL SELECT 'best_season' as section, player_name, season_id as games, SUM(pts) as total_pts");
    s.append(", ROUND(AVG(pts),1) as ppg");
    s.append(", ROUND(AVG(reb),1) as rpg");
    s.append(", ROUND(AVG(ast),1) as apg");
    s.append(" FROM player_game_stats WHERE player_name = ");
    s.append(quote_literal(player).as_str());
    s.append(" GROUP BY player_name, season_id");
    s.append(" ORDER BY total_pts DESC LIMIT 5");
    s
}

/// The query that ranks players by a figure, up to a value.
pub open spec fn ranked(
    column: Seq<char>,
    order: Seq<char>,
    filter: Seq<char>,
    value: Seq<char>,
) -> Seq<char> {
    "WITH ranked AS ( SELECT player_name"@
        + ", SUM("@
        + column
        + ") as stat_val"@
        + ", ROW_NUMBER() OVER (ORDER BY SUM("@
        + column
        + ") "@
        + order
        + ") as rank"@
        + " FROM player_game_stats "@
        + filter
        + " GROUP BY player_name )"@
        + " SELECT * FROM ranked WHERE stat_val <= "@
        + value
        + " ORDER BY rank LIMIT 20"@
}

/// The query that ranks players by a figure, up to a value.
pub fn ranked_query(column: &str, order: &str, filter: &str, value: &str) -> (r: String)
    ensures
        r@ == ranked(column@, order@, filter@, value@),
{
    let mut s = "WITH ranked AS ( SELECT player_name".to_owned();
    s.append(", SUM(");
    s.append(column);
    s.append(") as stat_val");
    s.append(", ROW_NUMBER() OVER (ORDER BY SUM(");
    s.append(column);
    s.append(") ");
    s.append(order);
    s.append(") as rank");
    s.append(" FROM player_game_stats ");
    s.append(filter);
    s.append(" GROUP BY player_name )");
    s.append(" SELECT * FROM ranked WHERE stat_val <= ");
    s.append(value);
    s.append(" ORDER BY rank LIMIT 20");
    s
}

/// The query for the players who lead in a figure.
pub open spec fn leaders(
    column: Seq<char>,
    label: Seq<char>,
    filter: Seq<char>,
    limit: Seq<char>,
) -> Seq<char> {
    "SELECT player_name, ROUND(AVG("@
        + column
        + "),1) as "@
        + label
        + ", COUNT(*) as games"@
        + " FROM player_game_stats WHERE 1=1"@
        + filter
        + " GROUP BY player_name HAVING COUNT(*) >= 10"@
        + " ORDER BY "@
        + label
        + " DESC LIMIT "@
        + limit
}

/// The query for the players who lead in a figure.
pub fn leaders_query(column: &str, label: &str, filter: &str, limit: &str) -> (r: String)
    ensures
        r@ == leaders(column@, label@, filter@, limit@),
{
    let mut s = "SELECT player_name, ROUND(AVG(".to_owned();
    s.append(column);
    s.append("),1) as ");
    s.append(label);
    s.append(", COUNT(*) as games");
    s.append(" FROM player_game_stats WHERE 1=1");
    s.append(filter);
    s.append(" GROUP BY player_name HAVING COUNT(*) >= 10");
    s.append(" ORDER BY ");
    s.append(label);
    s.append(" DESC LIMIT ");
    s.append(limit);
    s
}

/// The query for the scores of games.
pub open spec fn game_summarised(filter: Seq<char>) -> Seq<char> {
    "SELECT g.game_id, g.game_date"@
        + ", ht.team_name as home_team, at.team_name as away_team"@
        + ", ls.team_score as home_score, ls.opp_score as away_score"@
        + " FROM game g JOIN line_score ls ON g.game_id = ls.game_id"@
        + " JOIN team ht ON ls.team_id = ht.team_id"@
        + " JOIN team at ON ls.opp_team_id = at.team_id "@
        + filter
        + "ORDER BY g.game_date DESC LIMIT 5"@
}

/// The query for the scores of games.
pub fn game_summarised_query(filter: &str) -> (r: String)
    ensures
        r@ == game_summarised(filter@),
{
    let mut s = "SELECT g.game_id, g.game_date".to_owned();
    s.append(", ht.team_name as home_team, at.team_name as away_team");
    s.append(", ls.team_score as home_score, ls.opp_score as away_score");
    s.append(" FROM game g JOIN line_score ls ON g.game_id = ls.game_id");
    s.append(" JOIN team ht ON ls.team_id = ht.team_id");
    s.append(" JOIN team at ON ls.opp_team_id = at.team_id ");
    s.append(filter);
    s.append("ORDER BY g.game_date DESC LIMIT 5");
    s
}

/// The query for the games between two teams, whichever is at home, under a
/// further condition.
pub open spec fn head_to_head(t1: Seq<char>, t2: Seq<char>, filter: Seq<char>) -> Seq<char> {
    "SELECT ht.team_name as home_team, at.team_name as away_team"@
        + ", ls.team_score as home_score, ls.opp_score as away_score"@
        + ", g.game_date"@
        + " FROM game g JOIN line_score ls ON g.game_id = ls.game_id"@
        + " JOIN team ht ON ls.team_id = ht.team_id"@
        + " JOIN team at ON ls.opp_team_id = at.team_id"@
        + " WHERE ("@
        + "(ht.team_name = "@
        + literal(t1)
        + " AND at.team_name = "@
        + literal(t2)
        + ")"@
        + " OR "@
        + "(ht.team_name = "@
        + literal(t2)
        + " AND at.team_name = "@
        + literal(t1)
        + ")"@
        + ")"@
        + filter
        + " ORDER BY g.game_date DESC LIMIT 20"@
}

/// The query for the games between two teams.
pub fn head_to_head_query(t1: &str, t2: &str, filter: &str) -> (r: String)
    ensures
        r@ == head_to_head(t1@, t2@, filter@),
{
    let mut s = "SELECT ht.team_name as home_team, at.team_name as away_team".to_owned();
    s.append(", ls.team_score as home_score, ls.opp_score as away_score");
    s.append(", g.game_date");
    s.append(" FROM game g JOIN line_score ls ON g.game_id = ls.game_id");
    s.append(" JOIN team ht ON ls.team_id = ht.team_id");
    s.append(" JOIN team at ON ls.opp_team_id = at.team_id");
    s.append(" WHERE (");
    s.append("(ht.team_name = ");
    s.append(quote_literal(t1).as_str());
    s.append(" AND at.team_name = ");
    s.append(quote_literal(t2).as_str());
    s.append(")");
    s.append(" OR ");
    s.append("(ht.team_name = ");
    s.append(quote_literal(t2).as_str());
    s.append(" AND at.team_name = ");
    s.append(quote_literal(t1).as_str());
    s.append(")");
    s.append(")");
    s.append(filter);
    s.append(" ORDER BY g.game_date DESC LIMIT 20");
    s
}

/// The query for how much is known of a player.
pub open spec fn player_covered(name: Seq<char>) -> Seq<char> {
    "SELECT 'player_game_stats' as table_name, COUNT(*) as row_count"@
        + ", MIN(game_date) as earliest, MAX(game_date) as latest"@
        + ", COUNT(DISTINCT season_id) as seasons"@
        + " FROM player_game_stats WHERE player_name = "@
        + literal(name)
        + " UNION ALL SELECT 'player_career_stats', COUNT(*), MIN(season_id), MAX(season_id), COUNT(DISTINCT season_id)"@
        + " FROM player_career_stats WHERE player_name = "@
        + literal(name)
}

/// The query for how much is known of a player.
pub fn player_covered_query(name: &str) -> (r: String)
    ensures
        r@ == player_covered(name@),
{
    let mut s = "SELECT 'player_game_stats' as table_name, COUNT(*) as row_count".to_owned();
    s.append(", MIN(game_date) as earliest, MAX(game_date) as latest");
    s.append(", COUNT(DISTINCT season_id) as seasons");
    s.append(" FROM player_game_stats WHERE player_name = ");
    s.append(quote_literal(name).as_str());
    s.append(" UNION ALL SELECT 'player_career_stats', COUNT(*), MIN(season_id), MAX(season_id), COUNT(DISTINCT season_id)");
    s.append(" FROM player_career_stats WHERE player_name = ");
    s.append(quote_literal(name).as_str());
    s
}

/// The query for how much is known of a team.
pub open spec fn team_covered(name: Seq<char>) -> Seq<char> {
    "SELECT 'fact_team_game_stats' as table_name, COUNT(*) as row_count"@
        + ", MIN(season_id) as earliest, MAX(season_id) as latest"@
        + ", COUNT(DISTINCT season_id) as seasons"@
        + " FROM fact_team_game_stats WHERE team_name = "@
        + literal(name)
}

/// The query for how much is known of a team.
pub fn team_covered_query(name: &str) -> (r: String)
    ensures
        r@ == team_covered(name@),
{
    let mut s = "SELECT 'fact_team_game_stats' as table_name, COUNT(*) as row_count".to_owned();
    s.append(", MIN(season_id) as earliest, MAX(season_id) as latest");
    s.append(", COUNT(DISTINCT season_id) as seasons");
    s.append(" FROM fact_team_game_stats WHERE team_name = ");
    s.append(quote_literal(name).as_str());
    s
}

/// The query for how much is known of a season.
pub open spec fn season_covered(name: Seq<char>) -> Seq<char> {
    "SELECT 'game' as table_name, COUNT(*) as row_count"@
        + ", MIN(game_date) as earliest, MAX(game_date) as latest"@
        + ", COUNT(DISTINCT game_id) as games"@
        + " FROM game WHERE season_id = "@
        + literal(name)
}

/// The query for how much is known of a season.
pub fn season_covered_query(name: &str) -> (r: String)
    ensures
        r@ == season_covered(name@),
{
    let mut s = "SELECT 'game' as table_name, COUNT(*) as row_count".to_owned();
    s.append(", MIN(game_date) as earliest, MAX(game_date) as latest");
    s.append(", COUNT(DISTINCT game_id) as games");
    s.append(" FROM game WHERE season_id = ");
    s.append(quote_literal(name).as_str());
    s
}

/// The query for how much a table holds, by the catalogue's estimate.
pub open spec fn table_covered(name: Seq<char>) -> Seq<char> {
    "SELECT table_name, estimated_size as row_count, column_count"@
        + " FROM duckdb_tables() WHERE schema_name = 'main' AND table_name = "@
        + literal(name)
}

/// The query for how much a table holds, by the catalogue's estimate.
pub fn table_covered_query(name: &str) -> (r: String)
    ensures
        r@ == table_covered(name@),
{
    let mut s = "SELECT table_name, estimated_size as row_count, column_count".to_owned();
    s.append(" FROM duckdb_tables() WHERE schema_name = 'main' AND table_name = ");
    s.append(quote_literal(name).as_str());
    s
}

/// The query that sets two players against the league of their seasons.
pub open spec fn eras_compared(p1: Seq<char>, p2: Seq<char>) -> Seq<char> {
    "WITH player_stats AS ( SELECT player_name, season_id"@
        + ", AVG(pts) as ppg"@
        + ", AVG(reb) as rpg"@
        + ", AVG(ast) as apg"@
        + ", COUNT(*) as games"@
        + " FROM player_game_stats WHERE player_name IN ("@
        + literal(p1)
        + ", "@
        + literal(p2)
        + ") GROUP BY player_name, season_id )"@
        + ", league_avg AS ( SELECT season_id, AVG(pts) as lg_ppg FROM player_game_stats GROUP BY season_id )"@
        + " SELECT ps.player_name, ps.season_id, ps.ppg, ps.rpg, ps.apg, ps.games, la.lg_ppg"@
        + ", ROUND(ps.ppg / NULLIF(la.lg_ppg, 0), 3) as era_ratio"@
        + " FROM player_stats ps JOIN league_avg la ON ps.season_id = la.season_id"@
        + " ORDER BY ps.player_name, ps.season_id"@
}

/// The query that sets two players against the league of their seasons.
pub fn eras_compared_query(p1: &str, p2: &str) -> (r: String)
    ensures
        r@ == eras_compared(p1@, p2@),
{
    let mut s = "WITH player_stats AS ( SELECT player_name, season_id".to_owned();
    s.append(", AVG(pts) as ppg");
    s.append(", AVG(reb) as rpg");
    s.append(", AVG(ast) as apg");
    s.append(", COUNT(*) as games");
    s.append(" FROM player_game_stats WHERE player_name IN (");
    s.append(quote_literal(p1).as_str());
    s.append(", ");
    s.append(quote_literal(p2).as_str());
    s.append(") GROUP BY player_name, season_id )");
    s.append(", league_avg AS ( SELECT season_id, AVG(pts) as lg_ppg FROM player_game_stats GROUP BY season_id )");
    s.append(" SELECT ps.player_name, ps.season_id, ps.ppg, ps.rpg, ps.apg, ps.games, la.lg_ppg");
    s.append(", ROUND(ps.ppg / NULLIF(la.lg_ppg, 0), 3) as era_ratio");
    s.append(" FROM player_stats ps JOIN league_avg la ON ps.season_id = la.season_id");
    s.append(" ORDER BY ps.player_name, ps.season_id");
    s
}

/// The query for the course of a game, play by play.
pub open spec fn game_replayed(filter: Seq<char>) -> Seq<char> {
    "SELECT pbp.game_id, pbp.event_type, pbp.player_name, pbp.visitor_desc, pbp.home_desc, pbp.period, pbp.pctimestring, pbp.score, pbp.scoremargin"@
        + " FROM play_by_play pbp "@
        + filter
        + "ORDER BY pbp.period, pbp.event_num LIMIT 200"@
}

/// The query for the course of a game, play by play.
pub fn game_replayed_query(filter: &str) -> (r: String)
    ensures
        r@ == game_replayed(filter@),
{
    let mut s = "SELECT pbp.game_id, pbp.event_type, pbp.player_name, pbp.visitor_desc, pbp.home_desc, pbp.period, pbp.pctimestring, pbp.score, pbp.scoremargin".to_owned();
    s.append(" FROM play_by_play pbp ");
    s.append(filter);
    s.append("ORDER BY pbp.period, pbp.event_num LIMIT 200");
    s
}

/// The query for a player's career, best seasons and playoffs.
pub open spec fn profile_in_full(player: Seq<char>) -> Seq<char> {
    "SELECT 'career' as section, player_name, COUNT(*) as games, SUM(pts) as total_pts"@
        + ", ROUND(AVG(pts),1) as ppg"@
        + ", ROUND(AVG(reb),1) as rpg"@
        + ", ROUND(AVG(ast),1) as apg"@
        + ", MAX(pts) as career_high_pts"@
        + " FROM player_game_stats WHERE player_name = "@
        + literal(player)
        + " GROUP BY player_name"@
        + " UNION ALL (SELECT 'best_season', player_name, season_id, SUM(pts)"@
        + ", ROUND(AVG(pts),1), ROUND(AVG(reb),1), ROUND(AVG(ast),1), MAX(pts)"@
        + " FROM player_game_stats WHERE player_name = "@
        + literal(player)
        + " GROUP BY player_name, season_id ORDER BY SUM(pts) DESC LIMIT 5)"@
        + " UNION ALL SELECT 'playoff', player_name, COUNT(*), SUM(pts)"@
        + ", ROUND(AVG(pts),1), ROUND(AVG(reb),1), ROUND(AVG(ast),1), MAX(pts)"@
        + " FROM player_game_stats WHERE player_name = "@
        + literal(player)
        + " AND season_id LIKE '%P%' GROUP BY player_name"@
}

/// The query for a player's career, best seasons and playoffs.
pub fn profile_in_full_query(player: &str) -> (r: String)
    ensures
        r@ == profile_in_full(player@),
{
    let mut s = "SELECT 'career' as section, player_name, COUNT(*) as games, SUM(pts) as total_pts".to_owned();
    s.append(", ROUND(AVG(pts),1) as ppg");
    s.append(", ROUND(AVG(reb),1) as rpg");
    s.append(", ROUND(AVG(ast),1) as apg");
    s.append(", MAX(pts) as career_high_pts");
    s.append(" FROM player_game_stats WHERE player_name = ");
    s.append(quote_literal(player).as_str());
    s.append(" GROUP BY player_name");
    s.append(" UNION ALL (SELECT 'best_season', player_name, season_id, SUM(pts)");
    s.append(", ROUND(AVG(pts),1), ROUND(AVG(reb),1), ROUND(AVG(ast),1), MAX(pts)");
    s.append(" FROM player_game_stats WHERE player_name = ");
    s.append(quote_literal(player).as_str());
    s.append(" GROUP BY player_name, season_id ORDER BY SUM(pts) DESC LIMIT 5)");
    s.append(" UNION ALL SELECT 'playoff', player_name, COUNT(*), SUM(pts)");
    s.append(", ROUND(AVG(pts),1), ROUND(AVG(reb),1), ROUND(AVG(ast),1), MAX(pts)");
    s.append(" FROM player_game_stats WHERE player_name = ");
    s.append(quote_literal(player).as_str());
    s.append(" AND season_id LIKE '%P%' GROUP BY player_name");
    s
}

// ---------------------------------------------------------------------------
// What the queries ask
// ---------------------------------------------------------------------------

/// A comparison of players looks at both and at no other, season by season under the
/// condition, and averages points, rebounds and assists, each under its own name.
pub proof fn law_players_compared_asks(p1: Seq<char>, p2: Seq<char>, filter: Seq<char>)
    ensures
        text::begins(
            players_compared(p1, p2, filter),
            "SELECT player_name, season_id, SUM(pts) as total_pts"@,
        ),
        text::contains(players_compared(p1, p2, filter), ", ROUND(AVG(pts),1) as ppg"@),
        text::contains(players_compared(p1, p2, filter), ", ROUND(AVG(reb),1) as rpg"@),
        text::contains(players_compared(p1, p2, filter), ", ROUND(AVG(ast),1) as apg"@),
        text::contains(players_compared(p1, p2, filter), ", COUNT(*) as games"@),
        text::contains(
            players_compared(p1, p2, filter),
            " FROM player_game_stats WHERE player_name IN ("@
                + literal(p1)
                + ", "@
                + literal(p2)
                + ")"@,
        ),
        text::contains(
            players_compared(p1, p2, filter),
            filter + " GROUP BY player_name, season_id"@,
        ),
        text::ends(players_compared(p1, p2, filter), " ORDER BY player_name, season_id"@),
{
    broadcast use text::lemma_concat_push;

    let none = Seq::<Seq<char>>::empty();
    let parts = none
        .push("SELECT player_name, season_id, SUM(pts) as total_pts"@)
        .push(", ROUND(AVG(pts),1) as ppg"@)
        .push(", ROUND(AVG(reb),1) as rpg"@)
        .push(", ROUND(AVG(ast),1) as apg"@)
        .push(", COUNT(*) as games"@)
        .push(" FROM player_game_stats WHERE player_name IN ("@)
        .push(literal(p1))
        .push(", "@)
        .push(literal(p2))
        .push(")"@)
        .push(filter)
        .push(" GROUP BY player_name, season_id"@)
        .push(" ORDER BY player_name, season_id"@);
    assert(players_compared(p1, p2, filter) == text::concat(parts));
    text::lemma_run(parts, 0, 1);
    assert(parts.subrange(0, 1) =~= none.push(parts[0]));
    text::lemma_run(parts, 1, 2);
    assert(parts.subrange(1, 2) =~= none.push(parts[1]));
    text::lemma_run(parts, 2, 3);
    assert(parts.subrange(2, 3) =~= none.push(parts[2]));
    text::lemma_run(parts, 3, 4);
    assert(parts.subrange(3, 4) =~= none.push(parts[3]));
    text::lemma_run(parts, 4, 5);
    assert(parts.subrange(4, 5) =~= none.push(parts[4]));
    text::lemma_run(parts, 5, 10);
    assert(parts.subrange(5, 10) =~= none
        .push(parts[5])
        .push(parts[6])
        .push(parts[7])
        .push(parts[8])
        .push(parts[9]));
    text::lemma_run(parts, 10, 12);
    assert(parts.subrange(10, 12) =~= none.push(parts[10]).push(parts[11]));
    text::lemma_run(parts, 12, 13);
    assert(parts.subrange(12, 13) =~= none.push(parts[12]));
}

/// A comparison of teams looks at both and at no other, season by season under the
/// condition, and has their points, their wins and their losses, each under its own
/// name.
pub proof fn law_teams_compared_asks(t1: Seq<char>, t2: Seq<char>, filter: Seq<char>)
    ensures
        text::begins(
            teams_compared(t1, t2, filter),
            "SELECT team_name, season_id, SUM(pts) as total_pts"@,
        ),
        text::contains(teams_compared(t1, t2, filter), ", ROUND(AVG(pts),1) as ppg"@),
        text::contains(teams_compared(t1, t2, filter), ", SUM(wins) as wins"@),
        text::contains(teams_compared(t1, t2, filter), ", SUM(losses) as losses"@),
        text::contains(
            teams_compared(t1, t2, filter),
            " FROM team_stats WHERE team_name IN ("@ + literal(t1) + ", "@ + literal(t2) + ")"@,
        ),
        text::contains(teams_compared(t1, t2, filter), filter + " GROUP BY team_name, season_id"@),
        text::ends(teams_compared(t1, t2, filter), " ORDER BY team_name, season_id"@),
{
    broadcast use text::lemma_concat_push;

    let none = Seq::<Seq<char>>::empty();
    let parts = none
        .push("SELECT team_name, season_id, SUM(pts) as total_pts"@)
        .push(", ROUND(AVG(pts),1) as ppg"@)
        .push(", SUM(wins) as wins"@)
        .push(", SUM(losses) as losses"@)
        .push(" FROM team_stats WHERE team_name IN ("@)
        .push(literal(t1))
        .push(", "@)
        .push(literal(t2))
        .push(")"@)
        .push(filter)
        .push(" GROUP BY team_name, season_id"@)
        .push(" ORDER BY team_name, season_id"@);
    assert(teams_compared(t1, t2, filter) == text::concat(parts));
    text::lemma_run(parts, 0, 1);
    assert(parts.subrange(0, 1) =~= none.push(parts[0]));
    text::lemma_run(parts, 1, 2);
    assert(parts.subrange(1, 2) =~= none.push(parts[1]));
    text::lemma_run(parts, 2, 3);
    assert(parts.subrange(2, 3) =~= none.push(parts[2]));
    text::lemma_run(parts, 3, 4);
    assert(parts.subrange(3, 4) =~= none.push(parts[3]));
    text::lemma_run(parts, 4, 9);
    assert(parts.subrange(4, 9) =~= none
        .push(parts[4])
        .push(parts[5])
        .push(parts[6])
        .push(parts[7])
        .push(parts[8]));
    text::lemma_run(parts, 9, 11);
    assert(parts.subrange(9, 11) =~= none.push(parts[9]).push(parts[10]));
    text::lemma_run(parts, 11, 12);
    assert(parts.subrange(11, 12) =~= none.push(parts[11]));
}

/// Winning streaks are counted over the player's games in the order of their dates: a
/// game is won where the team scored more, each loss begins a new group, and the wins
/// of a group are one streak; the longest come first.
pub proof fn law_win_streaks_asks(player: Seq<char>)
    ensures
        text::begins(win_streaks(player), "WITH game_flags AS ( SELECT game_id, game_date"@),
        text::contains(
            win_streaks(player),
            ", CASE WHEN team_score > opp_score THEN 1 ELSE 0 END as won"@,
        ),
        text::contains(
            win_streaks(player),
            " FROM player_game_stats WHERE player_name = "@ + literal(player),
        ),
        text::contains(win_streaks(player), " ), streak_groups AS ( SELECT *"@),
        text::contains(
            win_streaks(player),
            ", SUM(CASE WHEN won = 0 THEN 1 ELSE 0 END) OVER (ORDER BY game_date) as grp"@,
        ),
        text::contains(
            win_streaks(player),
            " FROM game_flags ) SELECT MIN(game_date) as streak_start, MAX(game_date) as streak_end, COUNT(*) as streak_length"@,
        ),
        text::ends(
            win_streaks(player),
            " FROM streak_groups WHERE won = 1 GROUP BY grp"@
                + " ORDER BY streak_length DESC LIMIT 10"@,
        ),
{
    broadcast use text::lemma_concat_push;

    let none = Seq::<Seq<char>>::empty();
    let parts = none
        .push("WITH game_flags AS ( SELECT game_id, game_date"@)
        .push(", CASE WHEN team_score > opp_score THEN 1 ELSE 0 END as won"@)
        .push(" FROM player_game_stats WHERE player_name = "@)
        .push(literal(player))
        .push(" ), streak_groups AS ( SELECT *"@)
        .push(", SUM(CASE WHEN won = 0 THEN 1 ELSE 0 END) OVER (ORDER BY game_date) as grp"@)
        .push(" FROM game_flags ) SELECT MIN(game_date) as streak_start, MAX(game_date) as streak_end, COUNT(*) as streak_length"@)
        .push(" FROM streak_groups WHERE won = 1 GROUP BY grp"@)
        .push(" ORDER BY streak_length DESC LIMIT 10"@);
    assert(win_streaks(player) == text::concat(parts));
    text::lemma_run(parts, 0, 1);
    assert(parts.subrange(0, 1) =~= none.push(parts[0]));
    text::lemma_run(parts, 1, 2);
    assert(parts.subrange(1, 2) =~= none.push(parts[1]));
    text::lemma_run(parts, 2, 4);
    assert(parts.subrange(2, 4) =~= none.push(parts[2]).push(parts[3]));
    text::lemma_run(parts, 4, 5);
    assert(parts.subrange(4, 5) =~= none.push(parts[4]));
    text::lemma_run(parts, 5, 6);
    assert(parts.subrange(5, 6) =~= none.push(parts[5]));
    text::lemma_run(parts, 6, 7);
    assert(parts.subrange(6, 7) =~= none.push(parts[6]));
    text::lemma_run(parts, 7, 9);
    assert(parts.subrange(7, 9) =~= none.push(parts[7]).push(parts[8]));
}

/// Streaks are counted over the player's games in the order of their dates: a game
/// counts where the figure reaches the threshold, each other game begins a new group,
/// and the games that count in a group are one streak; the longest come first.
pub proof fn law_streaks_asks(column: Seq<char>, threshold: Seq<char>, player: Seq<char>)
    ensures
        text::begins(
            streaks(column, threshold, player),
            "WITH game_flags AS ( SELECT game_id, game_date, "@ + column,
        ),
        text::contains(
            streaks(column, threshold, player),
            ", CASE WHEN "@ + column + " >= "@ + threshold + " THEN 1 ELSE 0 END as above"@,
        ),
        text::contains(
            streaks(column, threshold, player),
            " FROM player_game_stats WHERE player_name = "@ + literal(player),
        ),
        text::contains(streaks(column, threshold, player), " ), streak_groups AS ( SELECT *"@),
        text::contains(
            streaks(column, threshold, player),
            ", SUM(CASE WHEN above = 0 THEN 1 ELSE 0 END) OVER (ORDER BY game_date) as grp"@,
        ),
        text::contains(
            streaks(column, threshold, player),
            " FROM game_flags ) SELECT MIN(game_date) as streak_start, MAX(game_date) as streak_end, COUNT(*) as streak_length"@,
        ),
        text::contains(streaks(column, threshold, player), ", MIN("@ + column + ") as min_val"@),
        text::contains(streaks(column, threshold, player), ", MAX("@ + column + ") as max_val"@),
        text::ends(
            streaks(column, threshold, player),
            " FROM streak_groups WHERE above = 1 GROUP BY grp"@
                + " ORDER BY streak_length DESC LIMIT 10"@,
        ),
{
    broadcast use text::lemma_concat_push;

    let none = Seq::<Seq<char>>::empty();
    let parts = none
        .push("WITH game_flags AS ( SELECT game_id, game_date, "@)
        .push(column)
        .push(", CASE WHEN "@)
        .push(column)
        .push(" >= "@)
        .push(threshold)
        .push(" THEN 1 ELSE 0 END as above"@)
        .push(" FROM player_game_stats WHERE player_name = "@)
        .push(literal(player))
        .push(" ), streak_groups AS ( SELECT *"@)
        .push(", SUM(CASE WHEN above = 0 THEN 1 ELSE 0 END) OVER (ORDER BY game_date) as grp"@)
        .push(" FROM game_flags ) SELECT MIN(game_date) as streak_start, MAX(game_date) as streak_end, COUNT(*) as streak_length"@)
        .push(", MIN("@)
        .push(column)
        .push(") as min_val"@)
        .push(", MAX("@)
        .push(column)
        .push(") as max_val"@)
        .push(" FROM streak_groups WHERE above = 1 GROUP BY grp"@)
        .push(" ORDER BY streak_length DESC LIMIT 10"@);
    assert(streaks(column, threshold, player) == text::concat(parts));
    text::lemma_run(parts, 0, 2);
    assert(parts.subrange(0, 2) =~= none.push(parts[0]).push(parts[1]));
    text::lemma_run(parts, 2, 7);
    assert(parts.subrange(2, 7) =~= none
        .push(parts[2])
        .push(parts[3])
        .push(parts[4])
        .push(parts[5])
        .push(parts[6]));
    text::lemma_run(parts, 7, 9);
    assert(parts.subrange(7, 9) =~= none.push(parts[7]).push(parts[8]));
    text::lemma_run(parts, 9, 10);
    assert(parts.subrange(9, 10) =~= none.push(parts[9]));
    text::lemma_run(parts, 10, 11);
    assert(parts.subrange(10, 11) =~= none.push(parts[10]));
    text::lemma_run(parts, 11, 12);
    assert(parts.subrange(11, 12) =~= none.push(parts[11]));
    text::lemma_run(parts, 12, 15);
    assert(parts.subrange(12, 15) =~= none.push(parts[12]).push(parts[13]).push(parts[14]));
    text::lemma_run(parts, 15, 18);
    assert(parts.subrange(15, 18) =~= none.push(parts[15]).push(parts[16]).push(parts[17]));
    text::lemma_run(parts, 18, 20);
    assert(parts.subrange(18, 20) =~= none.push(parts[18]).push(parts[19]));
}

/// A profile has the player's whole career and then the player's seasons, the ones with
/// the most points first; both average points, rebounds and assists, each under its own
/// name.
pub proof fn law_profile_asks(player: Seq<char>)
    ensures
        text::begins(
            profile(player),
            "SELECT 'career_summary' as section, player_name, COUNT(*) as games, SUM(pts) as total_pts"@
                + ", ROUND(AVG(pts),1) as ppg"@
                + ", ROUND(AVG(reb),1) as rpg"@
                + ", ROUND(AVG(ast),1) as apg"@
                + " FROM player_game_stats WHERE player_name = "@
                + literal(player)
                + " GROUP BY player_name"@,
        ),
        text::contains(
            profile(player),
            " UNION ALL SELECT 'best_season' as section, player_name, season_id as games, SUM(pts) as total_pts"@
                + ", ROUND(AVG(pts),1) as ppg"@
                + ", ROUND(AVG(reb),1) as rpg"@
                + ", ROUND(AVG(ast),1) as apg"@
                + " FROM player_game_stats WHERE player_name = "@
                + literal(player)
                + " GROUP BY player_name, season_id"@,
        ),
        text::ends(profile(player), " ORDER BY total_pts DESC LIMIT 5"@),
{
    broadcast use text::lemma_concat_push;

    let none = Seq::<Seq<char>>::empty();
    let parts = none
        .push("SELECT 'career_summary' as section, player_name, COUNT(*) as games, SUM(pts) as total_pts"@)
        .push(", ROUND(AVG(pts),1) as ppg"@)
        .push(", ROUND(AVG(reb),1) as rpg"@)
        .push(", ROUND(AVG(ast),1) as apg"@)
        .push(" FROM player_game_stats WHERE player_name = "@)
        .push(literal(player))
        .push(" GROUP BY player_name"@)
        .push(" UNION ALL SELECT 'best_season' as section, player_name, season_id as games, SUM(pts) as total_pts"@)
        .push(", ROUND(AVG(pts),1) as ppg"@)
        .push(", ROUND(AVG(reb),1) as rpg"@)
        .push(", ROUND(AVG(ast),1) as apg"@)
        .push(" FROM player_game_stats WHERE player_name = "@)
        .push(literal(player))
        .push(" GROUP BY player_name, season_id"@)
        .push(" ORDER BY total_pts DESC LIMIT 5"@);
    assert(profile(player) == text::concat(parts));
    text::lemma_run(parts, 0, 7);
    assert(parts.subrange(0, 7) =~= none
        .push(parts[0])
        .push(parts[1])
        .push(parts[2])
        .push(parts[3])
        .push(parts[4])
        .push(parts[5])
        .push(parts[6]));
    text::lemma_run(parts, 7, 14);
    assert(parts.subrange(7, 14) =~= none
        .push(parts[7])
        .push(parts[8])
        .push(parts[9])
        .push(parts[10])
        .push(parts[11])
        .push(parts[12])
        .push(parts[13]));
    text::lemma_run(parts, 14, 15);
    assert(parts.subrange(14, 15) =~= none.push(parts[14]));
}

/// A ranking sums the figure of each player among the games of the condition, numbers
/// the players by it, and shows those that do not exceed the value, by rank.
pub proof fn law_ranked_asks(
    column: Seq<char>,
    order: Seq<char>,
    filter: Seq<char>,
    value: Seq<char>,
)
    ensures
        text::begins(ranked(column, order, filter, value), "WITH ranked AS ( SELECT player_name"@),
        text::contains(ranked(column, order, filter, value), ", SUM("@ + column + ") as stat_val"@),
        text::contains(
            ranked(column, order, filter, value),
            ", ROW_NUMBER() OVER (ORDER BY SUM("@ + column + ") "@ + order + ") as rank"@,
        ),
        text::contains(
            ranked(column, order, filter, value),
            " FROM player_game_stats "@ + filter + " GROUP BY player_name )"@,
        ),
        text::contains(
            ranked(column, order, filter, value),
            " SELECT * FROM ranked WHERE stat_val <= "@ + value,
        ),
        text::ends(ranked(column, order, filter, value), " ORDER BY rank LIMIT 20"@),
{
    broadcast use text::lemma_concat_push;

    let none = Seq::<Seq<char>>::empty();
    let parts = none
        .push("WITH ranked AS ( SELECT player_name"@)
        .push(", SUM("@)
        .push(column)
        .push(") as stat_val"@)
        .push(", ROW_NUMBER() OVER (ORDER BY SUM("@)
        .push(column)
        .push(") "@)
        .push(order)
        .push(") as rank"@)
        .push(" FROM player_game_stats "@)
        .push(filter)
        .push(" GROUP BY player_name )"@)
        .push(" SELECT * FROM ranked WHERE stat_val <= "@)
        .push(value)
        .push(" ORDER BY rank LIMIT 20"@);
    assert(ranked(column, order, filter, value) == text::concat(parts));
    text::lemma_run(parts, 0, 1);
    assert(parts.subrange(0, 1) =~= none.push(parts[0]));
    text::lemma_run(parts, 1, 4);
    assert(parts.subrange(1, 4) =~= none.push(parts[1]).push(parts[2]).push(parts[3]));
    text::lemma_run(parts, 4, 9);
    assert(parts.subrange(4, 9) =~= none
        .push(parts[4])
        .push(parts[5])
        .push(parts[6])
        .push(parts[7])
        .push(parts[8]));
    text::lemma_run(parts, 9, 12);
    assert(parts.subrange(9, 12) =~= none.push(parts[9]).push(parts[10]).push(parts[11]));
    text::lemma_run(parts, 12, 14);
    assert(parts.subrange(12, 14) =~= none.push(parts[12]).push(parts[13]));
    text::lemma_run(parts, 14, 15);
    assert(parts.subrange(14, 15) =~= none.push(parts[14]));
}

/// Leaders are the players of at least ten games with the highest average of the figure
/// among the games of the condition, the highest first, as many as asked for.
pub proof fn law_leaders_asks(
    column: Seq<char>,
    label: Seq<char>,
    filter: Seq<char>,
    limit: Seq<char>,
)
    ensures
        text::begins(
            leaders(column, label, filter, limit),
            "SELECT player_name, ROUND(AVG("@ + column + "),1) as "@ + label,
        ),
        text::contains(leaders(column, label, filter, limit), ", COUNT(*) as games"@),
        text::contains(
            leaders(column, label, filter, limit),
            " FROM player_game_stats WHERE 1=1"@ + filter,
        ),
        text::contains(
            leaders(column, label, filter, limit),
            " GROUP BY player_name HAVING COUNT(*) >= 10"@,
        ),
        text::ends(
            leaders(column, label, filter, limit),
            " ORDER BY "@ + label + " DESC LIMIT "@ + limit,
        ),
{
    broadcast use text::lemma_concat_push;

    let none = Seq::<Seq<char>>::empty();
    let parts = none
        .push("SELECT player_name, ROUND(AVG("@)
        .push(column)
        .push("),1) as "@)
        .push(label)
        .push(", COUNT(*) as games"@)
        .push(" FROM player_game_stats WHERE 1=1"@)
        .push(filter)
        .push(" GROUP BY player_name HAVING COUNT(*) >= 10"@)
        .push(" ORDER BY "@)
        .push(label)
        .push(" DESC LIMIT "@)
        .push(limit);
    assert(leaders(column, label, filter, limit) == text::concat(parts));
    text::lemma_run(parts, 0, 4);
    assert(parts.subrange(0, 4) =~= none
        .push(parts[0])
        .push(parts[1])
        .push(parts[2])
        .push(parts[3]));
    text::lemma_run(parts, 4, 5);
    assert(parts.subrange(4, 5) =~= none.push(parts[4]));
    text::lemma_run(parts, 5, 7);
    assert(parts.subrange(5, 7) =~= none.push(parts[5]).push(parts[6]));
    text::lemma_run(parts, 7, 8);
    assert(parts.subrange(7, 8) =~= none.push(parts[7]));
    text::lemma_run(parts, 8, 12);
    assert(parts.subrange(8, 12) =~= none
        .push(parts[8])
        .push(parts[9])
        .push(parts[10])
        .push(parts[11]));
}

/// A summary of games has the team at home with its own score and the other with its
/// own, among the games of the condition, the latest first.
pub proof fn law_game_summarised_asks(filter: Seq<char>)
    ensures
        text::begins(game_summarised(filter), "SELECT g.game_id, g.game_date"@),
        text::contains(
            game_summarised(filter),
            ", ht.team_name as home_team, at.team_name as away_team"@,
        ),
        text::contains(
            game_summarised(filter),
            ", ls.team_score as home_score, ls.opp_score as away_score"@,
        ),
        text::contains(
            game_summarised(filter),
            " FROM game g JOIN line_score ls ON g.game_id = ls.game_id"@,
        ),
        text::contains(game_summarised(filter), " JOIN team ht ON ls.team_id = ht.team_id"@),
        text::contains(
            game_summarised(filter),
            " JOIN team at ON ls.opp_team_id = at.team_id "@ + filter,
        ),
        text::ends(game_summarised(filter), "ORDER BY g.game_date DESC LIMIT 5"@),
{
    broadcast use text::lemma_concat_push;

    let none = Seq::<Seq<char>>::empty();
    let parts = none
        .push("SELECT g.game_id, g.game_date"@)
        .push(", ht.team_name as home_team, at.team_name as away_team"@)
        .push(", ls.team_score as home_score, ls.opp_score as away_score"@)
        .push(" FROM game g JOIN line_score ls ON g.game_id = ls.game_id"@)
        .push(" JOIN team ht ON ls.team_id = ht.team_id"@)
        .push(" JOIN team at ON ls.opp_team_id = at.team_id "@)
        .push(filter)
        .push("ORDER BY g.game_date DESC LIMIT 5"@);
    assert(game_summarised(filter) == text::concat(parts));
    text::lemma_run(parts, 0, 1);
    assert(parts.subrange(0, 1) =~= none.push(parts[0]));
    text::lemma_run(parts, 1, 2);
    assert(parts.subrange(1, 2) =~= none.push(parts[1]));
    text::lemma_run(parts, 2, 3);
    assert(parts.subrange(2, 3) =~= none.push(parts[2]));
    text::lemma_run(parts, 3, 4);
    assert(parts.subrange(3, 4) =~= none.push(parts[3]));
    text::lemma_run(parts, 4, 5);
    assert(parts.subrange(4, 5) =~= none.push(parts[4]));
    text::lemma_run(parts, 5, 7);
    assert(parts.subrange(5, 7) =~= none.push(parts[5]).push(parts[6]));
    text::lemma_run(parts, 7, 8);
    assert(parts.subrange(7, 8) =~= none.push(parts[7]));
}

/// The games between two teams are those with the one at home and the other away and
/// those with the other at home and the one away, both under the condition, the latest
/// first.
pub proof fn law_head_to_head_asks(t1: Seq<char>, t2: Seq<char>, filter: Seq<char>)
    ensures
        text::begins(
            head_to_head(t1, t2, filter),
            "SELECT ht.team_name as home_team, at.team_name as away_team"@,
        ),
        text::contains(
            head_to_head(t1, t2, filter),
            ", ls.team_score as home_score, ls.opp_score as away_score"@,
        ),
        text::contains(head_to_head(t1, t2, filter), ", g.game_date"@),
        text::contains(
            head_to_head(t1, t2, filter),
            " FROM game g JOIN line_score ls ON g.game_id = ls.game_id"@,
        ),
        text::contains(head_to_head(t1, t2, filter), " JOIN team ht ON ls.team_id = ht.team_id"@),
        text::contains(
            head_to_head(t1, t2, filter),
            " JOIN team at ON ls.opp_team_id = at.team_id"@,
        ),
        text::contains(
            head_to_head(t1, t2, filter),
            " WHERE ("@
                + "(ht.team_name = "@
                + literal(t1)
                + " AND at.team_name = "@
                + literal(t2)
                + ")"@
                + " OR "@
                + "(ht.team_name = "@
                + literal(t2)
                + " AND at.team_name = "@
                + literal(t1)
                + ")"@
                + ")"@,
        ),
        text::contains(head_to_head(t1, t2, filter), ")"@ + filter),
        text::ends(head_to_head(t1, t2, filter), " ORDER BY g.game_date DESC LIMIT 20"@),
{
    broadcast use text::lemma_concat_push;

    let none = Seq::<Seq<char>>::empty();
    let parts = none
        .push("SELECT ht.team_name as home_team, at.team_name as away_team"@)
        .push(", ls.team_score as home_score, ls.opp_score as away_score"@)
        .push(", g.game_date"@)
        .push(" FROM game g JOIN line_score ls ON g.game_id = ls.game_id"@)
        .push(" JOIN team ht ON ls.team_id = ht.team_id"@)
        .push(" JOIN team at ON ls.opp_team_id = at.team_id"@)
        .push(" WHERE ("@)
        .push("(ht.team_name = "@)
        .push(literal(t1))
        .push(" AND at.team_name = "@)
        .push(literal(t2))
        .push(")"@)
        .push(" OR "@)
        .push("(ht.team_name = "@)
        .push(literal(t2))
        .push(" AND at.team_name = "@)
        .push(literal(t1))
        .push(")"@)
        .push(")"@)
        .push(filter)
        .push(" ORDER BY g.game_date DESC LIMIT 20"@);
    assert(head_to_head(t1, t2, filter) == text::concat(parts));
    text::lemma_run(parts, 0, 1);
    assert(parts.subrange(0, 1) =~= none.push(parts[0]));
    text::lemma_run(parts, 1, 2);
    assert(parts.subrange(1, 2) =~= none.push(parts[1]));
    text::lemma_run(parts, 2, 3);
    assert(parts.subrange(2, 3) =~= none.push(parts[2]));
    text::lemma_run(parts, 3, 4);
    assert(parts.subrange(3, 4) =~= none.push(parts[3]));
    text::lemma_run(parts, 4, 5);
    assert(parts.subrange(4, 5) =~= none.push(parts[4]));
    text::lemma_run(parts, 5, 6);
    assert(parts.subrange(5, 6) =~= none.push(parts[5]));
    text::lemma_run(parts, 6, 19);
    assert(parts.subrange(6, 19) =~= none
        .push(parts[6])
        .push(parts[7])
        .push(parts[8])
        .push(parts[9])
        .push(parts[10])
        .push(parts[11])
        .push(parts[12])
        .push(parts[13])
        .push(parts[14])
        .push(parts[15])
        .push(parts[16])
        .push(parts[17])
        .push(parts[18]));
    text::lemma_run(parts, 18, 20);
    assert(parts.subrange(18, 20) =~= none.push(parts[18]).push(parts[19]));
    text::lemma_run(parts, 20, 21);
    assert(parts.subrange(20, 21) =~= none.push(parts[20]));
}

/// What is known of a player is counted in the tables of games and of careers, for that
/// player, with the earliest, the latest and the number of seasons.
pub proof fn law_player_covered_asks(name: Seq<char>)
    ensures
        text::begins(
            player_covered(name),
            "SELECT 'player_game_stats' as table_name, COUNT(*) as row_count"@,
        ),
        text::contains(
            player_covered(name),
            ", MIN(game_date) as earliest, MAX(game_date) as latest"@,
        ),
        text::contains(player_covered(name), ", COUNT(DISTINCT season_id) as seasons"@),
        text::contains(
            player_covered(name),
            " FROM player_game_stats WHERE player_name = "@ + literal(name),
        ),
        text::ends(
            player_covered(name),
            " UNION ALL SELECT 'player_career_stats', COUNT(*), MIN(season_id), MAX(season_id), COUNT(DISTINCT season_id)"@
                + " FROM player_career_stats WHERE player_name = "@
                + literal(name),
        ),
{
    broadcast use text::lemma_concat_push;

    let none = Seq::<Seq<char>>::empty();
    let parts = none
        .push("SELECT 'player_game_stats' as table_name, COUNT(*) as row_count"@)
        .push(", MIN(game_date) as earliest, MAX(game_date) as latest"@)
        .push(", COUNT(DISTINCT season_id) as seasons"@)
        .push(" FROM player_game_stats WHERE player_name = "@)
        .push(literal(name))
        .push(" UNION ALL SELECT 'player_career_stats', COUNT(*), MIN(season_id), MAX(season_id), COUNT(DISTINCT season_id)"@)
        .push(" FROM player_career_stats WHERE player_name = "@)
        .push(literal(name));
    assert(player_covered(name) == text::concat(parts));
    text::lemma_run(parts, 0, 1);
    assert(parts.subrange(0, 1) =~= none.push(parts[0]));
    text::lemma_run(parts, 1, 2);
    assert(parts.subrange(1, 2) =~= none.push(parts[1]));
    text::lemma_run(parts, 2, 3);
    assert(parts.subrange(2, 3) =~= none.push(parts[2]));
    text::lemma_run(parts, 3, 5);
    assert(parts.subrange(3, 5) =~= none.push(parts[3]).push(parts[4]));
    text::lemma_run(parts, 5, 8);
    assert(parts.subrange(5, 8) =~= none.push(parts[5]).push(parts[6]).push(parts[7]));
}

/// What is known of a team is counted in the table of its games, for that team, with the
/// earliest, the latest and the number of seasons.
pub proof fn law_team_covered_asks(name: Seq<char>)
    ensures
        text::begins(
            team_covered(name),
            "SELECT 'fact_team_game_stats' as table_name, COUNT(*) as row_count"@,
        ),
        text::contains(
            team_covered(name),
            ", MIN(season_id) as earliest, MAX(season_id) as latest"@,
        ),
        text::contains(team_covered(name), ", COUNT(DISTINCT season_id) as seasons"@),
        text::ends(
            team_covered(name),
            " FROM fact_team_game_stats WHERE team_name = "@ + literal(name),
        ),
{
    broadcast use text::lemma_concat_push;

    let none = Seq::<Seq<char>>::empty();
    let parts = none
        .push("SELECT 'fact_team_game_stats' as table_name, COUNT(*) as row_count"@)
        .push(", MIN(season_id) as earliest, MAX(season_id) as latest"@)
        .push(", COUNT(DISTINCT season_id) as seasons"@)
        .push(" FROM fact_team_game_stats WHERE team_name = "@)
        .push(literal(name));
    assert(team_covered(name) == text::concat(parts));
    text::lemma_run(parts, 0, 1);
    assert(parts.subrange(0, 1) =~= none.push(parts[0]));
    text::lemma_run(parts, 1, 2);
    assert(parts.subrange(1, 2) =~= none.push(parts[1]));
    text::lemma_run(parts, 2, 3);
    assert(parts.subrange(2, 3) =~= none.push(parts[2]));
    text::lemma_run(parts, 3, 5);
    assert(parts.subrange(3, 5) =~= none.push(parts[3]).push(parts[4]));
}

/// What is known of a season is counted in the table of games, for that season, with the
/// earliest, the latest and the number of games.
pub proof fn law_season_covered_asks(name: Seq<char>)
    ensures
        text::begins(season_covered(name), "SELECT 'game' as table_name, COUNT(*) as row_count"@),
        text::contains(
            season_covered(name),
            ", MIN(game_date) as earliest, MAX(game_date) as latest"@,
        ),
        text::contains(season_covered(name), ", COUNT(DISTINCT game_id) as games"@),
        text::ends(season_covered(name), " FROM game WHERE season_id = "@ + literal(name)),
{
    broadcast use text::lemma_concat_push;

    let none = Seq::<Seq<char>>::empty();
    let parts = none
        .push("SELECT 'game' as table_name, COUNT(*) as row_count"@)
        .push(", MIN(game_date) as earliest, MAX(game_date) as latest"@)
        .push(", COUNT(DISTINCT game_id) as games"@)
        .push(" FROM game WHERE season_id = "@)
        .push(literal(name));
    assert(season_covered(name) == text::concat(parts));
    text::lemma_run(parts, 0, 1);
    assert(parts.subrange(0, 1) =~= none.push(parts[0]));
    text::lemma_run(parts, 1, 2);
    assert(parts.subrange(1, 2) =~= none.push(parts[1]));
    text::lemma_run(parts, 2, 3);
    assert(parts.subrange(2, 3) =~= none.push(parts[2]));
    text::lemma_run(parts, 3, 5);
    assert(parts.subrange(3, 5) =~= none.push(parts[3]).push(parts[4]));
}

/// What a table holds is told by the catalogue, for that table.
pub proof fn law_table_covered_asks(name: Seq<char>)
    ensures
        text::begins(
            table_covered(name),
            "SELECT table_name, estimated_size as row_count, column_count"@,
        ),
        text::ends(
            table_covered(name),
            " FROM duckdb_tables() WHERE schema_name = 'main' AND table_name = "@ + literal(name),
        ),
{
    broadcast use text::lemma_concat_push;

    let none = Seq::<Seq<char>>::empty();
    let parts = none
        .push("SELECT table_name, estimated_size as row_count, column_count"@)
        .push(" FROM duckdb_tables() WHERE schema_name = 'main' AND table_name = "@)
        .push(literal(name));
    assert(table_covered(name) == text::concat(parts));
    text::lemma_run(parts, 0, 1);
    assert(parts.subrange(0, 1) =~= none.push(parts[0]));
    text::lemma_run(parts, 1, 3);
    assert(parts.subrange(1, 3) =~= none.push(parts[1]).push(parts[2]));
}

/// Players of different eras are set against the league of their own seasons: the ratio
/// is that of the player's average to the league's in the same season.
pub proof fn law_eras_compared_asks(p1: Seq<char>, p2: Seq<char>)
    ensures
        text::begins(
            eras_compared(p1, p2),
            "WITH player_stats AS ( SELECT player_name, season_id"@,
        ),
        text::contains(eras_compared(p1, p2), ", AVG(pts) as ppg"@),
        text::contains(eras_compared(p1, p2), ", AVG(reb) as rpg"@),
        text::contains(eras_compared(p1, p2), ", AVG(ast) as apg"@),
        text::contains(eras_compared(p1, p2), ", COUNT(*) as games"@),
        text::contains(
            eras_compared(p1, p2),
            " FROM player_game_stats WHERE player_name IN ("@
                + literal(p1)
                + ", "@
                + literal(p2)
                + ") GROUP BY player_name, season_id )"@,
        ),
        text::contains(
            eras_compared(p1, p2),
            ", league_avg AS ( SELECT season_id, AVG(pts) as lg_ppg FROM player_game_stats GROUP BY season_id )"@,
        ),
        text::contains(
            eras_compared(p1, p2),
            " SELECT ps.player_name, ps.season_id, ps.ppg, ps.rpg, ps.apg, ps.games, la.lg_ppg"@,
        ),
        text::contains(
            eras_compared(p1, p2),
            ", ROUND(ps.ppg / NULLIF(la.lg_ppg, 0), 3) as era_ratio"@,
        ),
        text::ends(
            eras_compared(p1, p2),
            " FROM player_stats ps JOIN league_avg la ON ps.season_id = la.season_id"@
                + " ORDER BY ps.player_name, ps.season_id"@,
        ),
{
    broadcast use text::lemma_concat_push;

    let none = Seq::<Seq<char>>::empty();
    let parts = none
        .push("WITH player_stats AS ( SELECT player_name, season_id"@)
        .push(", AVG(pts) as ppg"@)
        .push(", AVG(reb) as rpg"@)
        .push(", AVG(ast) as apg"@)
        .push(", COUNT(*) as games"@)
        .push(" FROM player_game_stats WHERE player_name IN ("@)
        .push(literal(p1))
        .push(", "@)
        .push(literal(p2))
        .push(") GROUP BY player_name, season_id )"@)
        .push(", league_avg AS ( SELECT season_id, AVG(pts) as lg_ppg FROM player_game_stats GROUP BY season_id )"@)
        .push(" SELECT ps.player_name, ps.season_id, ps.ppg, ps.rpg, ps.apg, ps.games, la.lg_ppg"@)
        .push(", ROUND(ps.ppg / NULLIF(la.lg_ppg, 0), 3) as era_ratio"@)
        .push(" FROM player_stats ps JOIN league_avg la ON ps.season_id = la.season_id"@)
        .push(" ORDER BY ps.player_name, ps.season_id"@);
    assert(eras_compared(p1, p2) == text::concat(parts));
    text::lemma_run(parts, 0, 1);
    assert(parts.subrange(0, 1) =~= none.push(parts[0]));
    text::lemma_run(parts, 1, 2);
    assert(parts.subrange(1, 2) =~= none.push(parts[1]));
    text::lemma_run(parts, 2, 3);
    assert(parts.subrange(2, 3) =~= none.push(parts[2]));
    text::lemma_run(parts, 3, 4);
    assert(parts.subrange(3, 4) =~= none.push(parts[3]));
    text::lemma_run(parts, 4, 5);
    assert(parts.subrange(4, 5) =~= none.push(parts[4]));
    text::lemma_run(parts, 5, 10);
    assert(parts.subrange(5, 10) =~= none
        .push(parts[5])
        .push(parts[6])
        .push(parts[7])
        .push(parts[8])
        .push(parts[9]));
    text::lemma_run(parts, 10, 11);
    assert(parts.subrange(10, 11) =~= none.push(parts[10]));
    text::lemma_run(parts, 11, 12);
    assert(parts.subrange(11, 12) =~= none.push(parts[11]));
    text::lemma_run(parts, 12, 13);
    assert(parts.subrange(12, 13) =~= none.push(parts[12]));
    text::lemma_run(parts, 13, 15);
    assert(parts.subrange(13, 15) =~= none.push(parts[13]).push(parts[14]));
}

/// The course of a game has its plays under the condition, in the order in which they
/// happened.
pub proof fn law_game_replayed_asks(filter: Seq<char>)
    ensures
        text::begins(
            game_replayed(filter),
            "SELECT pbp.game_id, pbp.event_type, pbp.player_name, pbp.visitor_desc, pbp.home_desc, pbp.period, pbp.pctimestring, pbp.score, pbp.scoremargin"@,
        ),
        text::contains(game_replayed(filter), " FROM play_by_play pbp "@ + filter),
        text::ends(game_replayed(filter), "ORDER BY pbp.period, pbp.event_num LIMIT 200"@),
{
    broadcast use text::lemma_concat_push;

    let none = Seq::<Seq<char>>::empty();
    let parts = none
        .push("SELECT pbp.game_id, pbp.event_type, pbp.player_name, pbp.visitor_desc, pbp.home_desc, pbp.period, pbp.pctimestring, pbp.score, pbp.scoremargin"@)
        .push(" FROM play_by_play pbp "@)
        .push(filter)
        .push("ORDER BY pbp.period, pbp.event_num LIMIT 200"@);
    assert(game_replayed(filter) == text::concat(parts));
    text::lemma_run(parts, 0, 1);
    assert(parts.subrange(0, 1) =~= none.push(parts[0]));
    text::lemma_run(parts, 1, 3);
    assert(parts.subrange(1, 3) =~= none.push(parts[1]).push(parts[2]));
    text::lemma_run(parts, 3, 4);
    assert(parts.subrange(3, 4) =~= none.push(parts[3]));
}

/// A full profile has the player's career, the player's five seasons with the most
/// points, and the player's playoffs, all of that player and with the same figures.
pub proof fn law_profile_in_full_asks(player: Seq<char>)
    ensures
        text::begins(
            profile_in_full(player),
            "SELECT 'career' as section, player_name, COUNT(*) as games, SUM(pts) as total_pts"@
                + ", ROUND(AVG(pts),1) as ppg"@
                + ", ROUND(AVG(reb),1) as rpg"@
                + ", ROUND(AVG(ast),1) as apg"@
                + ", MAX(pts) as career_high_pts"@
                + " FROM player_game_stats WHERE player_name = "@
                + literal(player)
                + " GROUP BY player_name"@,
        ),
        text::contains(
            profile_in_full(player),
            " UNION ALL (SELECT 'best_season', player_name, season_id, SUM(pts)"@
                + ", ROUND(AVG(pts),1), ROUND(AVG(reb),1), ROUND(AVG(ast),1), MAX(pts)"@
                + " FROM player_game_stats WHERE player_name = "@
                + literal(player)
                + " GROUP BY player_name, season_id ORDER BY SUM(pts) DESC LIMIT 5)"@,
        ),
        text::ends(
            profile_in_full(player),
            " UNION ALL SELECT 'playoff', player_name, COUNT(*), SUM(pts)"@
                + ", ROUND(AVG(pts),1), ROUND(AVG(reb),1), ROUND(AVG(ast),1), MAX(pts)"@
                + " FROM player_game_stats WHERE player_name = "@
                + literal(player)
                + " AND season_id LIKE '%P%' GROUP BY player_name"@,
        ),
{
    broadcast use text::lemma_concat_push;

    let none = Seq::<Seq<char>>::empty();
    let parts = none
        .push("SELECT 'career' as section, player_name, COUNT(*) as games, SUM(pts) as total_pts"@)
        .push(", ROUND(AVG(pts),1) as ppg"@)
        .push(", ROUND(AVG(reb),1) as rpg"@)
        .push(", ROUND(AVG(ast),1) as apg"@)
        .push(", MAX(pts) as career_high_pts"@)
        .push(" FROM player_game_stats WHERE player_name = "@)
        .push(literal(player))
        .push(" GROUP BY player_name"@)
        .push(" UNION ALL (SELECT 'best_season', player_name, season_id, SUM(pts)"@)
        .push(", ROUND(AVG(pts),1), ROUND(AVG(reb),1), ROUND(AVG(ast),1), MAX(pts)"@)
        .push(" FROM player_game_stats WHERE player_name = "@)
        .push(literal(player))
        .push(" GROUP BY player_name, season_id ORDER BY SUM(pts) DESC LIMIT 5)"@)
        .push(" UNION ALL SELECT 'playoff', player_name, COUNT(*), SUM(pts)"@)
        .push(", ROUND(AVG(pts),1), ROUND(AVG(reb),1), ROUND(AVG(ast),1), MAX(pts)"@)
        .push(" FROM player_game_stats WHERE player_name = "@)
        .push(literal(player))
        .push(" AND season_id LIKE '%P%' GROUP BY player_name"@);
    assert(profile_in_full(player) == text::concat(parts));
    text::lemma_run(parts, 0, 8);
    assert(parts.subrange(0, 8) =~= none
        .push(parts[0])
        .push(parts[1])
        .push(parts[2])
        .push(parts[3])
        .push(parts[4])
        .push(parts[5])
        .push(parts[6])
        .push(parts[7]));
    text::lemma_run(parts, 8, 13);
    assert(parts.subrange(8, 13) =~= none
        .push(parts[8])
        .push(parts[9])
        .push(parts[10])
        .push(parts[11])
        .push(parts[12]));
    text::lemma_run(parts, 13, 18);
    assert(parts.subrange(13, 18) =~= none
        .push(parts[13])
        .push(parts[14])
        .push(parts[15])
        .push(parts[16])
        .push(parts[17]));
}

}
