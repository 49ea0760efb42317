//! The guard in front of the database: which SQL may run, what an engine error
//! means, and how a misspelt column is mended.
use vstd::prelude::*;

use sqlparser::ast::Expr;
use sqlparser::ast::Statement;

use crate::db::DbContext;
use crate::text;

verus! {

// ---------------------------------------------------------------------------
// Statements
// ---------------------------------------------------------------------------

/// A parsed SQL statement, as far as the guard tells statements apart.
#[derive(Debug)]
pub enum SqlStatement {
    /// A query, with the debug renderings of the statements that stand anywhere
    /// inside it.
    Query(Vec<String>),
    Explain,
    ExplainTable,
    /// Any other statement, by the debug rendering of its syntax tree.
    Other(String),
}

/// What a parsed statement holds.
pub enum StatementView {
    Query(Seq<Seq<char>>),
    Explain,
    ExplainTable,
    Other(Seq<char>),
}

impl View for SqlStatement {
    type V = StatementView;

    open spec fn view(&self) -> StatementView {
        match self {
            SqlStatement::Query(inner) => StatementView::Query(text::views(inner@)),
            SqlStatement::Explain => StatementView::Explain,
            SqlStatement::ExplainTable => StatementView::ExplainTable,
            SqlStatement::Other(d) => StatementView::Other(d@),
        }
    }
}

/// The statements that `sqlparser` reads from a text in DuckDB's dialect, or
/// the text of its error.
pub uninterp spec fn parsed_sql(s: Seq<char>) -> Result<Seq<StatementView>, Seq<char>>;

/// What a parse gave.
pub open spec fn parse_view(r: Result<Vec<SqlStatement>, String>) -> Result<
    Seq<StatementView>,
    Seq<char>,
> {
    match r {
        Ok(v) => Ok(text::views(v@)),
        Err(e) => Err(e@),
    }
}

/// The outcome of a check, by the text of its error.
pub open spec fn outcome(r: Result<(), String>) -> Result<(), Seq<char>> {
    match r {
        Ok(()) => Ok(()),
        Err(e) => Err(e@),
    }
}

/// `sqlparser::parser::Parser::parse_sql` with `DuckDbDialect`: the statements,
/// or the error's text, are functions of the SQL text.
#[verifier::external_body]
fn parse_statements(s: &str) -> (r: Result<Vec<SqlStatement>, String>)
    ensures
        parse_view(r) == parsed_sql(s@),
{
    match sqlparser::parser::Parser::parse_sql(&sqlparser::dialect::DuckDbDialect {  }, s) {
        Ok(v) => Ok(v.iter().map(statement_kind).collect()),
        Err(e) => Err(e.to_string()),
    }
}

/// `sqlparser::ast::Statement`, which only passes to `statement_kind`.
#[verifier::external_type_specification]
#[verifier::external_body]
pub struct ExStatement(sqlparser::ast::Statement);

/// The kind of a `sqlparser` statement, by its variant. A query comes with the
/// statements that `sqlparser::ast::visit_statements` meets inside it, at any
/// depth; a statement of none of the kinds told apart keeps its debug rendering,
/// which starts with the variant's name. Nothing is claimed of it: the parse
/// calls it on each statement.
#[verifier::external_body]
fn statement_kind(s: &Statement) -> SqlStatement {
    match s {
        Statement::Query(q) => {
            let mut inner = Vec::new();
            let _ = sqlparser::ast::visit_statements(q.as_ref(), |w: &Statement| {
                inner.push(format!("{:?}", w));
                std::ops::ControlFlow::<()>::Continue(())
            });
            SqlStatement::Query(inner)
        },
        Statement::Explain { .. } => SqlStatement::Explain,
        Statement::ExplainTable { .. } => SqlStatement::ExplainTable,
        other => SqlStatement::Other(format!("{:?}", other)),
    }
}

// ---------------------------------------------------------------------------
// Validation
// ---------------------------------------------------------------------------

/// The debug rendering of a tree is that of a write: it begins with the name of
/// one.
pub open spec fn rendered_write(d: Seq<char>) -> bool {
    text::begins(d, "Insert"@) || text::begins(d, "Update"@) || text::begins(d, "Delete"@)
        || text::begins(d, "Merge"@)
}

/// What a refused statement is called, by the debug rendering of its tree: a
/// write is called that, whatever it writes; any other statement goes by the
/// names that occur anywhere in the rendering, those of definitions before those
/// of writes.
pub open spec fn refused_kind(d: Seq<char>) -> Seq<char> {
    if rendered_write(d) {
        "DML write"@
    } else if text::contains(d, "Drop"@) || text::contains(d, "Alter"@) || text::contains(
        d,
        "Create"@,
    ) || text::contains(d, "Truncate"@) {
        "DDL"@
    } else if text::contains(d, "Insert"@) || text::contains(d, "Update"@) || text::contains(
        d,
        "Delete"@,
    ) || text::contains(d, "Merge"@) {
        "DML write"@
    } else {
        "unsupported"@
    }
}

/// What stands in the way of a statement: nothing where it only reads, else the
/// rendering of what does more. A query reads unless another statement stands
/// inside it; explanations read, and so does what shows what the database has.
pub open spec fn offence(s: StatementView) -> Option<Seq<char>> {
    match s {
        StatementView::Query(inner) => if inner.len() > 0 {
            Some(inner[0])
        } else {
            None
        },
        StatementView::Other(d) => if text::begins(d, "Show"@) {
            None
        } else {
            Some(d)
        },
        _ => None,
    }
}

/// A statement only reads.
pub open spec fn only_reads(s: StatementView) -> bool {
    offence(s) is None
}

/// The verdict on the statements from position `i` on: the first statement
/// that is not a read refuses them all.
pub open spec fn reads_from(v: Seq<StatementView>, i: int) -> Result<(), Seq<char>>
    decreases v.len() - i,
{
    if i < 0 || i >= v.len() {
        Ok(())
    } else {
        match offence(v[i]) {
            Some(d) => Err(
                refused_kind(d) + " statements are not allowed on this read-only agent"@,
            ),
            None => reads_from(v, i + 1),
        }
    }
}

/// The verdict on what a query was parsed into.
pub open spec fn statements_verdict(p: Result<Seq<StatementView>, Seq<char>>) -> Result<
    (),
    Seq<char>,
> {
    match p {
        Err(e) => Err("SQL parse error: "@ + e),
        Ok(v) => if v.len() == 0 {
            Err("Empty query after parsing"@)
        } else {
            reads_from(v, 0)
        },
    }
}

/// What a refused statement is called, by the debug rendering of its tree.
pub fn refusal(d: &str) -> (r: String)
    ensures
        r@ == refused_kind(d@),
{
    if text::starts_with(d, "Insert") || text::starts_with(d, "Update") || text::starts_with(
        d,
        "Delete",
    ) || text::starts_with(d, "Merge") {
        "DML write".to_owned()
    } else if text::has(d, "Drop") || text::has(d, "Alter") || text::has(d, "Create")
        || text::has(d, "Truncate") {
        "DDL".to_owned()
    } else if text::has(d, "Insert") || text::has(d, "Update") || text::has(d, "Delete")
        || text::has(d, "Merge") {
        "DML write".to_owned()
    } else {
        "unsupported".to_owned()
    }
}

/// What stands in the way of a statement, if anything does.
fn offence_of(s: &SqlStatement) -> (r: Option<&String>)
    ensures
        match r {
            Some(d) => offence(s@) == Some(d@),
            None => offence(s@) is None,
        },
{
    match s {
        SqlStatement::Query(inner) => if inner.len() > 0 {
            proof {
                assert(text::views(inner@)[0] == inner@[0]@);
            }
            Some(&inner[0])
        } else {
            None
        },
        SqlStatement::Other(d) => if text::starts_with(d.as_str(), "Show") {
            None
        } else {
            Some(d)
        },
        _ => None,
    }
}

/// The verdict on what a query was parsed into.
pub fn judge_statements(p: &Result<Vec<SqlStatement>, String>) -> (r: Result<(), String>)
    ensures
        outcome(r) == statements_verdict(parse_view(*p)),
{
    match p {
        Err(e) => Err(text::plus("SQL parse error: ".to_owned(), e.as_str())),
        Ok(v) => {
            if v.len() == 0 {
                return Err("Empty query after parsing".to_owned());
            }
            let ghost all = text::views(v@);
            let mut i: usize = 0;
            while i < v.len()
                invariant
                    all == text::views(v@),
                    i <= v@.len(),
                    v@.len() > 0,
                    parse_view(*p) == Ok::<Seq<StatementView>, Seq<char>>(all),
                    reads_from(all, 0) == reads_from(all, i as int),
                decreases v@.len() - i,
            {
                proof {
                    assert(all[i as int] == v@[i as int]@);
                }
                if let Some(d) = offence_of(&v[i]) {
                    let kind = refusal(d.as_str());
                    return Err(
                        text::plus(kind, " statements are not allowed on this read-only agent"),
                    );
                }
                i = i + 1;
            }
            Ok(())
        },
    }
}

// ---------------------------------------------------------------------------
// Pragmas
// ---------------------------------------------------------------------------

/// What is left of a text from the end of its first line on.
pub open spec fn past_line(s: Seq<char>) -> Seq<char>
    decreases s.len(),
{
    if s.len() == 0 || s[0] == '\n' || s[0] == '\r' {
        s
    } else {
        past_line(s.skip(1))
    }
}

/// What is left of a text behind the end of the block comment that it starts in;
/// none where the comment is not closed, or where another opens inside it.
pub open spec fn past_block(s: Seq<char>) -> Option<Seq<char>>
    decreases s.len(),
{
    if s.len() < 2 || s[0] == '/' && s[1] == '*' {
        None
    } else if s[0] == '*' && s[1] == '/' {
        Some(s.skip(2))
    } else {
        past_block(s.skip(1))
    }
}

/// What is left of a text behind the comment at its start; none where it starts
/// with no comment.
pub open spec fn past_comment(s: Seq<char>) -> Option<Seq<char>> {
    if s.len() >= 2 && s[0] == '-' && s[1] == '-' {
        Some(past_line(s.skip(2)))
    } else if s.len() >= 2 && s[0] == '/' && s[1] == '*' {
        past_block(s.skip(2))
    } else {
        None
    }
}

proof fn lemma_line_shrinks(s: Seq<char>)
    ensures
        past_line(s).len() <= s.len(),
    decreases s.len(),
{
    if s.len() > 0 {
        lemma_line_shrinks(s.skip(1));
    }
}

proof fn lemma_block_shrinks(s: Seq<char>)
    ensures
        past_block(s) matches Some(rest) ==> rest.len() < s.len(),
    decreases s.len(),
{
    if s.len() > 0 {
        lemma_block_shrinks(s.skip(1));
    }
}

proof fn lemma_comment_shrinks(s: Seq<char>)
    ensures
        past_comment(s) matches Some(rest) ==> rest.len() < s.len(),
{
    if s.len() >= 2 {
        lemma_line_shrinks(s.skip(2));
        lemma_block_shrinks(s.skip(2));
    }
}

/// What is left of a text behind the blanks and comments at its start; with
/// `stops`, semicolons count as blanks too.
pub open spec fn past_gap(s: Seq<char>, stops: bool) -> Seq<char>
    decreases s.len(),
    via past_gap_shrinks
{
    if s.len() > 0 && (text::is_white(s[0]) || stops && s[0] == ';') {
        past_gap(s.skip(1), stops)
    } else {
        match past_comment(s) {
            Some(rest) => past_gap(rest, stops),
            None => s,
        }
    }
}

#[via_fn]
proof fn past_gap_shrinks(s: Seq<char>, stops: bool) {
    lemma_comment_shrinks(s);
}

/// A character of a word: an ASCII letter or digit, or an underscore.
pub open spec fn word_char(c: char) -> bool {
    text::is_alnum(c) || c == '_'
}

/// A character of a name: that of a word, a point, or anything beyond ASCII but
/// blanks.
pub open spec fn name_char(c: char) -> bool {
    word_char(c) || c == '.' || c as u32 > 127 && !text::is_white(c)
}

/// What is left of a text behind the name at its start.
pub open spec fn past_name(s: Seq<char>) -> Seq<char>
    decreases s.len(),
{
    if s.len() > 0 && name_char(s[0]) {
        past_name(s.skip(1))
    } else {
        s
    }
}

/// What is left of a text behind the argument at its start: a text in single or
/// double quotes, or a name; none where a quote is not closed.
pub open spec fn past_argument(s: Seq<char>) -> Option<Seq<char>> {
    if s.len() > 0 && (s[0] == '\'' || s[0] == '"') {
        past_quoted(s.skip(1), s[0])
    } else {
        Some(past_name(s))
    }
}

/// What is left of a text behind the closing bracket of the list of arguments
/// that it starts with, with commas between them; none where it starts with
/// anything else.
pub open spec fn past_arguments(s: Seq<char>) -> Option<Seq<char>>
    decreases s.len(),
    via past_arguments_shrinks
{
    match past_argument(past_gap(s, false)) {
        None => None,
        Some(rest) => {
            let next = past_gap(rest, false);
            if next.len() > 0 && next[0] == ')' {
                Some(next.skip(1))
            } else if next.len() > 0 && next[0] == ',' {
                past_arguments(next.skip(1))
            } else {
                None
            }
        },
    }
}

#[via_fn]
proof fn past_arguments_shrinks(s: Seq<char>) {
    let t = past_gap(s, false);
    lemma_gap_shrinks(s, false);
    if let Some(rest) = past_argument(t) {
        lemma_argument_shrinks(t);
        lemma_gap_shrinks(rest, false);
    }
}

proof fn lemma_gap_shrinks(s: Seq<char>, stops: bool)
    ensures
        past_gap(s, stops).len() <= s.len(),
    decreases s.len(),
{
    if s.len() > 0 && (text::is_white(s[0]) || stops && s[0] == ';') {
        lemma_gap_shrinks(s.skip(1), stops);
    } else if let Some(rest) = past_comment(s) {
        lemma_comment_shrinks(s);
        lemma_gap_shrinks(rest, stops);
    }
}

proof fn lemma_name_shrinks(s: Seq<char>)
    ensures
        past_name(s).len() <= s.len(),
    decreases s.len(),
{
    if s.len() > 0 {
        lemma_name_shrinks(s.skip(1));
    }
}

proof fn lemma_quoted_shrinks(s: Seq<char>, q: char)
    ensures
        text::read_quoted(s, q) matches Some((_, rest)) ==> rest.len() <= s.len(),
    decreases s.len(),
{
    if s.len() > 0 {
        lemma_quoted_shrinks(s.skip(1), q);
        if s.len() > 1 {
            lemma_quoted_shrinks(s.skip(2), q);
        }
    }
}

proof fn lemma_argument_shrinks(s: Seq<char>)
    ensures
        past_argument(s) matches Some(rest) ==> rest.len() <= s.len(),
{
    lemma_name_shrinks(s);
    if s.len() > 0 {
        lemma_quoted_shrinks(s.skip(1), s[0]);
    }
}

/// What is left of a text behind the arguments in brackets at its start, where
/// there are any; none where the brackets hold anything else.
pub open spec fn past_brackets(s: Seq<char>) -> Option<Seq<char>> {
    if s.len() > 0 && s[0] == '(' {
        past_arguments(s.skip(1))
    } else {
        Some(s)
    }
}

/// Nothing but blanks, comments and semicolons.
pub open spec fn nothing_more(s: Seq<char>) -> bool {
    past_gap(s, true).len() == 0
}

/// The text is a pragma, well or ill formed.
pub open spec fn is_pragma(t: Seq<char>) -> bool {
    t.len() >= 6 && text::same_ignoring_case(t.take(6), "pragma"@)
}

/// What is left of a pragma behind its name and its arguments; none where it is
/// ill formed.
pub open spec fn past_pragma(t: Seq<char>) -> Option<Seq<char>> {
    let behind = t.skip(6);
    let from = past_gap(behind, false);
    if from.len() == behind.len() {
        None
    } else {
        past_brackets(past_gap(past_name(from), false))
    }
}

/// The name of a pragma that stands alone: the word behind `PRAGMA`, without the
/// schema that it may come with, where at most a list of arguments in brackets
/// follows.
pub open spec fn pragma_name(t: Seq<char>) -> Option<Seq<char>> {
    let from = past_gap(t.skip(6), false);
    match past_pragma(t) {
        Some(end) => if nothing_more(end) {
            Some(text::split(from.take(from.len() - past_name(from).len()), '.').last())
        } else {
            None
        },
        None => None,
    }
}

/// The name is that of a pragma that only reads.
pub open spec fn reading_pragma(name: Seq<char>) -> bool {
    let u = text::upper_ascii(name);
    text::contains(u, "TABLE_INFO"@) || text::contains(u, "DATABASE_LIST"@) || text::contains(
        u,
        "TABLES"@,
    ) || text::contains(u, "COLUMNS"@)
}

/// The text is one pragma that only reads, and nothing else.
pub open spec fn only_reading_pragma(t: Seq<char>) -> bool {
    pragma_name(t) matches Some(name) && reading_pragma(name)
}

/// The verdict on a text without blanks at its ends; none where it is no pragma.
pub open spec fn pragma_verdict(t: Seq<char>) -> Option<Result<(), Seq<char>>> {
    if !is_pragma(t) {
        None
    } else if only_reading_pragma(t) {
        Some(Ok(()))
    } else {
        Some(Err("PRAGMA write statements are not allowed"@))
    }
}

/// The verdict on a query.
pub open spec fn sql_verdict(q: Seq<char>) -> Result<(), Seq<char>> {
    let t = text::trim(q);
    if t.len() == 0 {
        Err("Empty query"@)
    } else {
        match pragma_verdict(t) {
            Some(v) => v,
            None => statements_verdict(parsed_sql(t)),
        }
    }
}

proof fn lemma_one_on(s: Seq<char>, i: int)
    requires
        0 <= i < s.len(),
    ensures
        s.skip(i)[0] == s[i],
        s.skip(i).skip(1) == s.skip(i + 1),
{
}

fn skip_line(v: &Vec<char>, from: usize) -> (r: usize)
    requires
        from <= v@.len(),
    ensures
        from <= r <= v@.len(),
        v@.skip(r as int) == past_line(v@.skip(from as int)),
{
    let mut i: usize = from;
    while i < v.len() && v[i] != '\n' && v[i] != '\r'
        invariant
            from <= i <= v@.len(),
            past_line(v@.skip(i as int)) == past_line(v@.skip(from as int)),
        decreases v@.len() - i,
    {
        proof {
            lemma_one_on(v@, i as int);
        }
        i = i + 1;
    }
    proof {
        if i < v@.len() {
            lemma_one_on(v@, i as int);
        }
    }
    i
}

fn skip_block(v: &Vec<char>, from: usize) -> (r: Option<usize>)
    requires
        from <= v@.len(),
    ensures
        match r {
            Some(i) => from <= i <= v@.len() && past_block(v@.skip(from as int)) == Some(
                v@.skip(i as int),
            ),
            None => past_block(v@.skip(from as int)) is None,
        },
{
    let n: usize = v.len();
    let mut i: usize = from;
    while n - i >= 2
        invariant
            n == v@.len(),
            from <= i <= n,
            past_block(v@.skip(i as int)) == past_block(v@.skip(from as int)),
        decreases n - i,
    {
        proof {
            lemma_one_on(v@, i as int);
            assert(v@.skip(i as int)[1] == v@[i + 1]);
            assert(v@.skip(i as int).skip(2) == v@.skip(i + 2));
        }
        if v[i] == '/' && v[i + 1] == '*' {
            return None;
        }
        if v[i] == '*' && v[i + 1] == '/' {
            return Some(i + 2);
        }
        i = i + 1;
    }
    None
}

fn skip_comment(v: &Vec<char>, from: usize) -> (r: Option<usize>)
    requires
        from <= v@.len(),
    ensures
        match r {
            Some(i) => from < i <= v@.len() && past_comment(v@.skip(from as int)) == Some(
                v@.skip(i as int),
            ),
            None => past_comment(v@.skip(from as int)) is None,
        },
{
    if v.len() - from < 2 {
        return None;
    }
    proof {
        lemma_one_on(v@, from as int);
        assert(v@.skip(from as int)[1] == v@[from + 1]);
        assert(v@.skip(from as int).skip(2) == v@.skip(from + 2));
    }
    if v[from] == '-' && v[from + 1] == '-' {
        Some(skip_line(v, from + 2))
    } else if v[from] == '/' && v[from + 1] == '*' {
        skip_block(v, from + 2)
    } else {
        None
    }
}

fn skip_gap(v: &Vec<char>, from: usize, stops: bool) -> (r: usize)
    requires
        from <= v@.len(),
    ensures
        from <= r <= v@.len(),
        v@.skip(r as int) == past_gap(v@.skip(from as int), stops),
{
    let n: usize = v.len();
    let mut i: usize = from;
    loop
        invariant
            n == v@.len(),
            from <= i <= n,
            past_gap(v@.skip(i as int), stops) == past_gap(v@.skip(from as int), stops),
        decreases n - i,
    {
        proof {
            if i < n {
                lemma_one_on(v@, i as int);
            }
        }
        if i < n && (text::white(v[i]) || stops && v[i] == ';') {
            i = i + 1;
        } else {
            match skip_comment(v, i) {
                Some(k) => {
                    i = k;
                },
                None => {
                    return i;
                },
            }
        }
    }
}

fn in_word(c: char) -> (r: bool)
    ensures
        r == word_char(c),
{
    text::alnum(c) || c == '_'
}

fn in_name(c: char) -> (r: bool)
    ensures
        r == name_char(c),
{
    in_word(c) || c == '.' || c as u32 > 127 && !text::white(c)
}

fn skip_name(v: &Vec<char>, from: usize) -> (r: usize)
    requires
        from <= v@.len(),
    ensures
        from <= r <= v@.len(),
        v@.skip(r as int) == past_name(v@.skip(from as int)),
{
    let mut i: usize = from;
    while i < v.len() && in_name(v[i])
        invariant
            from <= i <= v@.len(),
            past_name(v@.skip(i as int)) == past_name(v@.skip(from as int)),
        decreases v@.len() - i,
    {
        proof {
            lemma_one_on(v@, i as int);
        }
        i = i + 1;
    }
    proof {
        if i < v@.len() {
            lemma_one_on(v@, i as int);
        }
    }
    i
}

/// What is left behind the closing quote of a quoted text.
pub open spec fn past_quoted(s: Seq<char>, q: char) -> Option<Seq<char>> {
    match text::read_quoted(s, q) {
        Some((_, rest)) => Some(rest),
        None => None,
    }
}

fn skip_quoted(v: &Vec<char>, from: usize, q: char) -> (r: Option<usize>)
    requires
        from <= v@.len(),
    ensures
        match r {
            Some(i) => from <= i <= v@.len() && past_quoted(v@.skip(from as int), q) == Some(
                v@.skip(i as int),
            ),
            None => past_quoted(v@.skip(from as int), q) is None,
        },
{
    let n: usize = v.len();
    let mut i: usize = from;
    while i < n
        invariant
            n == v@.len(),
            from <= i <= n,
            past_quoted(v@.skip(i as int), q) == past_quoted(v@.skip(from as int), q),
        decreases n - i,
    {
        proof {
            lemma_one_on(v@, i as int);
            if i + 1 < n {
                lemma_one_on(v@, i + 1);
                assert(v@.skip(i as int)[1] == v@[i + 1]);
                assert(v@.skip(i as int).skip(2) == v@.skip(i + 2));
            }
        }
        if v[i] == q {
            if i + 1 < n && v[i + 1] == q {
                i = i + 2;
            } else {
                return Some(i + 1);
            }
        } else {
            i = i + 1;
        }
    }
    None
}

fn skip_argument(v: &Vec<char>, from: usize) -> (r: Option<usize>)
    requires
        from <= v@.len(),
    ensures
        match r {
            Some(i) => from <= i <= v@.len() && past_argument(v@.skip(from as int)) == Some(
                v@.skip(i as int),
            ),
            None => past_argument(v@.skip(from as int)) is None,
        },
{
    proof {
        if from < v@.len() {
            lemma_one_on(v@, from as int);
        }
    }
    if from < v.len() && (v[from] == '\'' || v[from] == '"') {
        skip_quoted(v, from + 1, v[from])
    } else {
        Some(skip_name(v, from))
    }
}

fn skip_brackets(v: &Vec<char>, from: usize) -> (r: Option<usize>)
    requires
        from <= v@.len(),
    ensures
        match r {
            Some(i) => from <= i <= v@.len() && past_brackets(v@.skip(from as int)) == Some(
                v@.skip(i as int),
            ),
            None => past_brackets(v@.skip(from as int)) is None,
        },
{
    let n: usize = v.len();
    proof {
        if from < n {
            lemma_one_on(v@, from as int);
        }
    }
    if from == n || v[from] != '(' {
        return Some(from);
    }
    let mut i: usize = from + 1;
    loop
        invariant
            n == v@.len(),
            from < i <= n,
            past_arguments(v@.skip(i as int)) == past_brackets(v@.skip(from as int)),
        decreases n - i,
    {
        let start: usize = skip_gap(v, i, false);
        match skip_argument(v, start) {
            None => {
                return None;
            },
            Some(end) => {
                let next: usize = skip_gap(v, end, false);
                proof {
                    if next < n {
                        lemma_one_on(v@, next as int);
                    }
                }
                if next < n && v[next] == ')' {
                    return Some(next + 1);
                }
                if next == n || v[next] != ',' {
                    return None;
                }
                i = next + 1;
            },
        }
    }
}

/// The name of a pragma that stands alone, where `v` is a pragma.
fn name_of_pragma(v: &Vec<char>) -> (r: Option<String>)
    requires
        v@.len() >= 6,
    ensures
        match r {
            Some(name) => pragma_name(v@) == Some(name@),
            None => pragma_name(v@) is None,
        },
{
    let from: usize = skip_gap(v, 6, false);
    if from == 6 {
        return None;
    }
    let rest: usize = skip_name(v, from);
    let open: usize = skip_gap(v, rest, false);
    match skip_brackets(v, open) {
        None => None,
        Some(end) => if skip_gap(v, end, true) == v.len() {
            let word = text::string_of(v, from, rest);
            let mut pieces = text::split_on(word.as_str(), '.');
            proof {
                assert(v@.skip(from as int).take(rest - from) == word@);
                assert(text::views(pieces@).last() == pieces@.last()@);
            }
            pieces.pop()
        } else {
            None
        },
    }
}

/// The verdict on a text without blanks at its ends; none where it is no pragma.
pub fn judge_pragma(t: &str) -> (r: Option<Result<(), String>>)
    ensures
        match r {
            Some(v) => pragma_verdict(t@) == Some(outcome(v)),
            None => pragma_verdict(t@) is None,
        },
{
    let v = text::chars_of(t);
    if v.len() < 6 {
        return None;
    }
    let head = text::string_of(&v, 0, 6);
    proof {
        assert(head@ == t@.take(6));
    }
    if !text::eq_ignoring_case(head.as_str(), "pragma") {
        return None;
    }
    if let Some(name) = name_of_pragma(&v) {
        let u = text::to_upper_ascii(name.as_str());
        let u = u.as_str();
        if text::has(u, "TABLE_INFO") || text::has(u, "DATABASE_LIST") || text::has(u, "TABLES")
            || text::has(u, "COLUMNS") {
            return Some(Ok(()));
        }
    }
    Some(Err("PRAGMA write statements are not allowed".to_owned()))
}

impl DbContext {
    /// Decides whether a query may run: reads may, everything else is refused
    /// with the reason.
    pub fn validate_sql(query: &str) -> (r: Result<(), String>)
        ensures
            outcome(r) == sql_verdict(query@),
    {
        let trimmed = text::trim_white(query);
        if trimmed.as_str().is_empty() {
            return Err("Empty query".to_owned());
        }
        match judge_pragma(trimmed.as_str()) {
            Some(v) => v,
            None => {
                let parsed = parse_statements(trimmed.as_str());
                judge_statements(&parsed)
            },
        }
    }
}

proof fn lemma_reads_from(v: Seq<StatementView>, i: int)
    requires
        0 <= i,
    ensures
        reads_from(v, i) is Ok <==> forall|k: int|
            i <= k < v.len() ==> only_reads(#[trigger] v[k]),
    decreases v.len() - i,
{
    if i < v.len() {
        lemma_reads_from(v, i + 1);
        if only_reads(v[i]) {
            assert(forall|k: int|
                i <= k < v.len() && only_reads(#[trigger] v[k]) ==> k == i || i + 1 <= k);
        }
    }
}

/// Only reads pass. A pragma is let through exactly when it only reads and
/// stands alone; any other query exactly when it is not blank, parses, holds at
/// least one statement, and holds only statements that read: queries with no
/// other statement inside them, what shows what the database has, and
/// explanations, whatever it is that they explain.
pub proof fn law_only_reads_pass(q: Seq<char>)
    ensures
        is_pragma(text::trim(q)) ==> (sql_verdict(q) is Ok <==> only_reading_pragma(
            text::trim(q),
        )),
        !is_pragma(text::trim(q)) ==> (sql_verdict(q) is Ok <==> text::trim(q).len() > 0 && (
        parsed_sql(text::trim(q)) matches Ok(v) && v.len() > 0 && forall|k: int|
            0 <= k < v.len() ==> only_reads(#[trigger] v[k]))),
{
    if parsed_sql(text::trim(q)) is Ok {
        lemma_reads_from(parsed_sql(text::trim(q))->Ok_0, 0);
    }
}

/// A text without its comments, where it holds no quotes.
pub open spec fn uncommented(s: Seq<char>) -> Seq<char>
    decreases s.len(),
    via uncommented_shrinks
{
    if s.len() == 0 {
        s
    } else {
        match past_comment(s) {
            Some(rest) => uncommented(rest),
            None => seq![s[0]] + uncommented(s.skip(1)),
        }
    }
}

#[via_fn]
proof fn uncommented_shrinks(s: Seq<char>) {
    lemma_comment_shrinks(s);
}

proof fn lemma_nothing_is_idle(s: Seq<char>)
    requires
        nothing_more(s),
    ensures
        forall|i: int|
            0 <= i < uncommented(s).len() ==> text::is_white(#[trigger] uncommented(s)[i])
                || uncommented(s)[i] == ';',
    decreases s.len(),
{
    if s.len() > 0 {
        if text::is_white(s[0]) || s[0] == ';' {
            assert(past_comment(s) is None);
            let rest = uncommented(s.skip(1));
            lemma_nothing_is_idle(s.skip(1));
            assert forall|i: int| 0 <= i < uncommented(s).len() implies text::is_white(
                #[trigger] uncommented(s)[i],
            ) || uncommented(s)[i] == ';' by {
                if i > 0 {
                    assert(uncommented(s)[i] == rest[i - 1]);
                }
            }
        } else {
            let rest = past_comment(s)->0;
            lemma_comment_shrinks(s);
            lemma_nothing_is_idle(rest);
            assert(uncommented(s) == uncommented(rest));
        }
    }
}

/// Nothing hides behind a pragma: behind the name and the arguments of a pragma
/// that is let through there is nothing but blanks and semicolons, once the
/// comments are taken out.
pub proof fn law_nothing_hides_behind_a_pragma(q: Seq<char>)
    requires
        is_pragma(text::trim(q)),
        sql_verdict(q) is Ok,
    ensures
        past_pragma(text::trim(q)) matches Some(end) && forall|i: int|
            0 <= i < uncommented(end).len() ==> text::is_white(#[trigger] uncommented(end)[i])
                || uncommented(end)[i] == ';',
{
    lemma_nothing_is_idle(past_pragma(text::trim(q))->0);
}

/// A statement is judged by what it is, stated on the renderings themselves: a
/// definition or a write among the statements, or inside a query, refuses them
/// all; they pass exactly when each is a query with nothing inside it, an
/// explanation, or shows what the database has.
pub proof fn law_definitions_and_writes_never_pass(q: Seq<char>, v: Seq<StatementView>, k: int)
    requires
        !is_pragma(text::trim(q)),
        parsed_sql(text::trim(q)) == Ok::<Seq<StatementView>, Seq<char>>(v),
    ensures
        0 <= k < v.len() && (v[k] matches StatementView::Other(d) && (text::begins(d, "Create"@)
            || text::begins(d, "Drop"@) || text::begins(d, "Alter"@) || text::begins(
            d,
            "Truncate"@,
        ) || text::begins(d, "Insert"@) || text::begins(d, "Update"@) || text::begins(d, "Delete"@)
            || text::begins(d, "Merge"@))) ==> sql_verdict(q) is Err,
        0 <= k < v.len() && (v[k] matches StatementView::Other(d) && !text::begins(d, "Show"@))
            ==> sql_verdict(q) is Err,
        0 <= k < v.len() && (v[k] matches StatementView::Query(inner) && inner.len() > 0)
            ==> sql_verdict(q) is Err,
        text::trim(q).len() > 0 && v.len() > 0 && (forall|j: int|
            0 <= j < v.len() ==> match #[trigger] v[j] {
                StatementView::Query(inner) => inner.len() == 0,
                StatementView::Explain => true,
                StatementView::ExplainTable => true,
                StatementView::Other(d) => text::begins(d, "Show"@),
            }) ==> sql_verdict(q) is Ok,
{
    lemma_reads_from(v, 0);
    lemma_names_differ();
    if 0 <= k < v.len() {
        assert(only_reads(v[k]) || sql_verdict(q) is Err);
        if let StatementView::Other(d) = v[k] {
            lemma_one_name(d, "Show"@, "Create"@);
            lemma_one_name(d, "Show"@, "Drop"@);
            lemma_one_name(d, "Show"@, "Alter"@);
            lemma_one_name(d, "Show"@, "Truncate"@);
            lemma_one_name(d, "Show"@, "Insert"@);
            lemma_one_name(d, "Show"@, "Update"@);
            lemma_one_name(d, "Show"@, "Delete"@);
            lemma_one_name(d, "Show"@, "Merge"@);
        }
    }
    if forall|j: int|
        0 <= j < v.len() ==> match #[trigger] v[j] {
            StatementView::Query(inner) => inner.len() == 0,
            StatementView::Explain => true,
            StatementView::ExplainTable => true,
            StatementView::Other(d) => text::begins(d, "Show"@),
        } {
        assert forall|j: int| 0 <= j < v.len() implies only_reads(#[trigger] v[j]) by {
            assert(match v[j] {
                StatementView::Query(inner) => inner.len() == 0,
                StatementView::Explain => true,
                StatementView::ExplainTable => true,
                StatementView::Other(d) => text::begins(d, "Show"@),
            });
        }
    }
}

/// The two words differ in their first character, or in their second.
spec fn told_apart(a: Seq<char>, b: Seq<char>) -> bool {
    a.len() > 1 && b.len() > 1 && (a[0] != b[0] || a[1] != b[1])
}

proof fn lemma_one_name(d: Seq<char>, a: Seq<char>, b: Seq<char>)
    requires
        told_apart(a, b),
    ensures
        !(text::begins(d, a) && text::begins(d, b)),
{
    if text::begins(d, a) && text::begins(d, b) {
        assert(d.take(a.len() as int)[0] == d[0] && d.take(b.len() as int)[0] == d[0]);
        assert(d.take(a.len() as int)[1] == d[1] && d.take(b.len() as int)[1] == d[1]);
    }
}

proof fn lemma_names_differ()
    ensures
        told_apart("Show"@, "Create"@),
        told_apart("Show"@, "Drop"@),
        told_apart("Show"@, "Alter"@),
        told_apart("Show"@, "Truncate"@),
        told_apart("Show"@, "Insert"@),
        told_apart("Show"@, "Update"@),
        told_apart("Show"@, "Delete"@),
        told_apart("Show"@, "Merge"@),
        forall|w: int|
            0 <= w < 4 ==> told_apart(#[trigger] definition_words()[w], "Insert"@) && told_apart(
                definition_words()[w],
                "Update"@,
            ) && told_apart(definition_words()[w], "Delete"@) && told_apart(
                definition_words()[w],
                "Merge"@,
            ),
{
    reveal_strlit("Show");
    reveal_strlit("Create");
    reveal_strlit("Drop");
    reveal_strlit("Alter");
    reveal_strlit("Truncate");
    reveal_strlit("Insert");
    reveal_strlit("Update");
    reveal_strlit("Delete");
    reveal_strlit("Merge");
}

spec fn definition_words() -> Seq<Seq<char>> {
    seq!["Create"@, "Drop"@, "Alter"@, "Truncate"@]
}

/// A refusal says what it refuses: the first statement that does more than read
/// is called a definition where it begins as one, a write where it begins as one,
/// and unsupported where no word of either occurs in it.
pub proof fn law_refusals_name_what_they_refuse(
    q: Seq<char>,
    v: Seq<StatementView>,
    k: int,
    d: Seq<char>,
)
    requires
        !is_pragma(text::trim(q)),
        text::trim(q).len() > 0,
        parsed_sql(text::trim(q)) == Ok::<Seq<StatementView>, Seq<char>>(v),
        0 <= k < v.len(),
        v[k] == StatementView::Other(d) || (v[k] matches StatementView::Query(inner) && inner.len()
            > 0 && inner[0] == d),
        v[k] is Other ==> !text::begins(d, "Show"@),
        forall|j: int|
            0 <= j < k ==> match #[trigger] v[j] {
                StatementView::Query(inner) => inner.len() == 0,
                StatementView::Explain => true,
                StatementView::ExplainTable => true,
                StatementView::Other(e) => text::begins(e, "Show"@),
            },
    ensures
        text::begins(d, "Create"@) || text::begins(d, "Drop"@) || text::begins(d, "Alter"@)
            || text::begins(d, "Truncate"@) ==> sql_verdict(q) == Err::<(), Seq<char>>(
            "DDL"@ + " statements are not allowed on this read-only agent"@,
        ),
        text::begins(d, "Insert"@) || text::begins(d, "Update"@) || text::begins(d, "Delete"@)
            || text::begins(d, "Merge"@) ==> sql_verdict(q) == Err::<(), Seq<char>>(
            "DML write"@ + " statements are not allowed on this read-only agent"@,
        ),
        !text::contains(d, "Create"@) && !text::contains(d, "Drop"@) && !text::contains(d, "Alter"@)
            && !text::contains(d, "Truncate"@) && !text::contains(d, "Insert"@) && !text::contains(
            d,
            "Update"@,
        ) && !text::contains(d, "Delete"@) && !text::contains(d, "Merge"@) ==> sql_verdict(q)
            == Err::<(), Seq<char>>(
            "unsupported"@ + " statements are not allowed on this read-only agent"@,
        ),
        !text::begins(d, "Insert"@) && !text::begins(d, "Update"@) && !text::begins(d, "Delete"@)
            && !text::begins(d, "Merge"@) && (text::contains(d, "Create"@) || text::contains(
            d,
            "Drop"@,
        ) || text::contains(d, "Alter"@) || text::contains(d, "Truncate"@)) ==> sql_verdict(q)
            == Err::<(), Seq<char>>(
            "DDL"@ + " statements are not allowed on this read-only agent"@,
        ),
        !text::contains(d, "Create"@) && !text::contains(d, "Drop"@) && !text::contains(d, "Alter"@)
            && !text::contains(d, "Truncate"@) && (text::contains(d, "Insert"@) || text::contains(
            d,
            "Update"@,
        ) || text::contains(d, "Delete"@) || text::contains(d, "Merge"@)) ==> sql_verdict(q)
            == Err::<(), Seq<char>>(
            "DML write"@ + " statements are not allowed on this read-only agent"@,
        ),
{
    lemma_skip_reads(v, k);
    lemma_names_differ();
    assert forall|w: int| 0 <= w < 4 implies !(text::begins(d, #[trigger] definition_words()[w])
        && rendered_write(d)) by {
        let x = definition_words()[w];
        lemma_one_name(d, x, "Insert"@);
        lemma_one_name(d, x, "Update"@);
        lemma_one_name(d, x, "Delete"@);
        lemma_one_name(d, x, "Merge"@);
    }
    assert(definition_words()[0] == "Create"@ && definition_words()[1] == "Drop"@);
    assert(definition_words()[2] == "Alter"@ && definition_words()[3] == "Truncate"@);
    text::law_beginnings_and_ends(d, "Create"@);
    text::law_beginnings_and_ends(d, "Drop"@);
    text::law_beginnings_and_ends(d, "Alter"@);
    text::law_beginnings_and_ends(d, "Truncate"@);
    text::law_beginnings_and_ends(d, "Insert"@);
    text::law_beginnings_and_ends(d, "Update"@);
    text::law_beginnings_and_ends(d, "Delete"@);
    text::law_beginnings_and_ends(d, "Merge"@);
}

proof fn lemma_skip_reads(v: Seq<StatementView>, k: int)
    requires
        0 <= k < v.len(),
        forall|j: int|
            0 <= j < k ==> match #[trigger] v[j] {
                StatementView::Query(inner) => inner.len() == 0,
                StatementView::Explain => true,
                StatementView::ExplainTable => true,
                StatementView::Other(e) => text::begins(e, "Show"@),
            },
    ensures
        reads_from(v, 0) == reads_from(v, k),
    decreases k,
{
    if k > 0 {
        lemma_skip_reads(v, k - 1);
        assert(offence(v[k - 1]) is None);
    }
}

/// A blank query, one that does not parse and one that holds no statement are
/// refused, each with its reason.
pub proof fn law_what_is_no_statement_is_refused(q: Seq<char>, e: Seq<char>)
    ensures
        text::trim(q).len() == 0 ==> sql_verdict(q) == Err::<(), Seq<char>>("Empty query"@),
        text::trim(q).len() > 0 && !is_pragma(text::trim(q)) && parsed_sql(text::trim(q)) == Err::<
            Seq<StatementView>,
            Seq<char>,
        >(e) ==> sql_verdict(q) == Err::<(), Seq<char>>("SQL parse error: "@ + e),
        text::trim(q).len() > 0 && !is_pragma(text::trim(q)) && (parsed_sql(
            text::trim(q),
        ) matches Ok(v) && v.len() == 0) ==> sql_verdict(q) == Err::<(), Seq<char>>(
            "Empty query after parsing"@,
        ),
{
}

proof fn lemma_line_is_tail(s: Seq<char>)
    ensures
        past_line(s).len() <= s.len(),
        past_line(s) == s.skip(s.len() - past_line(s).len()),
    decreases s.len(),
{
    if s.len() == 0 || s[0] == '\n' || s[0] == '\r' {
        assert(s.skip(0) =~= s);
    } else {
        lemma_line_is_tail(s.skip(1));
        assert(s.skip(1).skip(s.len() - 1 - past_line(s).len()) =~= s.skip(
            s.len() - past_line(s).len(),
        ));
    }
}

proof fn lemma_block_is_tail(s: Seq<char>)
    ensures
        past_block(s) matches Some(r) ==> r.len() <= s.len() && r == s.skip(s.len() - r.len()),
    decreases s.len(),
{
    if s.len() < 2 || s[0] == '/' && s[1] == '*' {
    } else if s[0] == '*' && s[1] == '/' {
    } else {
        lemma_block_is_tail(s.skip(1));
        if let Some(r) = past_block(s) {
            assert(s.skip(1).skip(s.len() - 1 - r.len()) =~= s.skip(s.len() - r.len()));
        }
    }
}

proof fn lemma_gap_is_tail(s: Seq<char>, stops: bool)
    ensures
        past_gap(s, stops).len() <= s.len(),
        past_gap(s, stops) == s.skip(s.len() - past_gap(s, stops).len()),
    decreases s.len(),
{
    let g = past_gap(s, stops);
    lemma_gap_shrinks(s, stops);
    if s.len() > 0 && (text::is_white(s[0]) || stops && s[0] == ';') {
        lemma_gap_is_tail(s.skip(1), stops);
        assert(s.skip(1).skip(s.len() - 1 - g.len()) =~= s.skip(s.len() - g.len()));
    } else if let Some(rest) = past_comment(s) {
        lemma_comment_shrinks(s);
        lemma_gap_is_tail(rest, stops);
        lemma_line_is_tail(s.skip(2));
        lemma_block_is_tail(s.skip(2));
        let t = s.skip(2);
        assert(rest == t.skip(t.len() - rest.len()));
        assert(rest =~= s.skip(s.len() - rest.len()));
        assert(rest.skip(rest.len() - g.len()) =~= s.skip(s.len() - g.len()));
    } else {
        assert(s.skip(0) =~= s);
    }
}

proof fn lemma_last_piece_is_tail(s: Seq<char>, sep: char)
    ensures
        ({
            let p = text::split(s, sep).last();
            p.len() <= s.len() && p == s.skip(s.len() - p.len())
        }),
    decreases s.len(),
{
    if s.len() > 0 {
        let f = s.drop_last();
        lemma_last_piece_is_tail(f, sep);
        text::lemma_split_nonempty(f, sep);
        let p = text::split(s, sep).last();
        if s.last() != sep {
            let q = text::split(f, sep).last();
            assert(p == q.push(s.last()));
            assert(p =~= s.skip(s.len() - p.len()));
        } else {
            assert(p =~= s.skip(s.len() as int));
        }
    } else {
        assert(text::split(s, sep).last() =~= s.skip(0));
    }
}

proof fn lemma_upper_within(t: Seq<char>, from: int, to: int, w: Seq<char>)
    requires
        0 <= from <= to <= t.len(),
        text::contains(text::upper_ascii(t.subrange(from, to)), w),
    ensures
        text::contains(text::upper_ascii(t), w),
{
    let u = text::upper_ascii(t.subrange(from, to));
    let i = choose|i: int| text::occurs_at(u, w, i);
    assert(text::upper_ascii(t).subrange(from + i, from + i + w.len()) =~= u.subrange(
        i,
        i + w.len(),
    ));
    assert(text::occurs_at(text::upper_ascii(t), w, from + i));
}

/// A pragma in which none of the names of those that only read occurs, in
/// whatever case, is refused.
pub proof fn law_writing_pragmas_are_refused(q: Seq<char>)
    requires
        is_pragma(text::trim(q)),
        !text::contains(text::upper_ascii(text::trim(q)), "TABLE_INFO"@),
        !text::contains(text::upper_ascii(text::trim(q)), "DATABASE_LIST"@),
        !text::contains(text::upper_ascii(text::trim(q)), "TABLES"@),
        !text::contains(text::upper_ascii(text::trim(q)), "COLUMNS"@),
    ensures
        sql_verdict(q) == Err::<(), Seq<char>>("PRAGMA write statements are not allowed"@),
{
    let t = text::trim(q);
    if let Some(name) = pragma_name(t) {
        let from = past_gap(t.skip(6), false);
        let word = from.take(from.len() - past_name(from).len());
        lemma_gap_is_tail(t.skip(6), false);
        lemma_name_shrinks(from);
        lemma_last_piece_is_tail(word, '.');
        let a = t.len() - from.len();
        let b = a + word.len();
        assert(from =~= t.skip(a));
        assert(word =~= t.subrange(a, b));
        assert(name =~= t.subrange(b - name.len(), b));
        if text::contains(text::upper_ascii(name), "TABLE_INFO"@) {
            lemma_upper_within(t, b - name.len(), b, "TABLE_INFO"@);
        }
        if text::contains(text::upper_ascii(name), "DATABASE_LIST"@) {
            lemma_upper_within(t, b - name.len(), b, "DATABASE_LIST"@);
        }
        if text::contains(text::upper_ascii(name), "TABLES"@) {
            lemma_upper_within(t, b - name.len(), b, "TABLES"@);
        }
        if text::contains(text::upper_ascii(name), "COLUMNS"@) {
            lemma_upper_within(t, b - name.len(), b, "COLUMNS"@);
        }
    }
}

proof fn lemma_past_whole_name(name: Seq<char>, rest: Seq<char>)
    requires
        forall|i: int| 0 <= i < name.len() ==> word_char(#[trigger] name[i]),
        rest.len() > 0 ==> !name_char(rest[0]),
    ensures
        past_name(name + rest) == rest,
    decreases name.len(),
{
    if name.len() == 0 {
        assert(name + rest =~= rest);
    } else {
        let n = name.skip(1);
        assert forall|i: int| 0 <= i < n.len() implies word_char(#[trigger] n[i]) by {
            assert(n[i] == name[i + 1]);
        }
        lemma_past_whole_name(n, rest);
        assert((name + rest)[0] == name[0]);
        assert((name + rest).skip(1) =~= n + rest);
    }
}

/// A pragma that reads passes, and one that does not is refused: one name behind
/// `PRAGMA`, alone or with any text as its argument, passes exactly when the name,
/// in whatever case, holds the name of one that only reads.
pub proof fn law_reading_pragmas_pass(name: Seq<char>, argument: Seq<char>)
    requires
        name.len() > 0,
        forall|i: int| 0 <= i < name.len() ==> word_char(#[trigger] name[i]),
    ensures
        ({
            let u = text::upper_ascii(name);
            let reads = text::contains(u, "TABLE_INFO"@) || text::contains(u, "DATABASE_LIST"@)
                || text::contains(u, "TABLES"@) || text::contains(u, "COLUMNS"@);
            let alone = "PRAGMA "@ + name;
            let called = "PRAGMA "@ + name + seq!['('] + text::quoted(argument, '\'') + seq![')'];
            &&& sql_verdict(alone) is Ok <==> reads
            &&& sql_verdict(called) is Ok <==> reads
        }),
{
    let nothing = Seq::<char>::empty();
    let alone = "PRAGMA "@ + name;
    let args = seq!['('] + text::quoted(argument, '\'') + seq![')'];
    let called = "PRAGMA "@ + name + seq!['('] + text::quoted(argument, '\'') + seq![')'];
    assert(called =~= "PRAGMA "@ + name + args);
    assert("PRAGMA "@ + name + nothing =~= alone);
    lemma_nothing_left();
    lemma_one_argument(argument);
    lemma_pragma_verdict(name, nothing);
    lemma_pragma_verdict(name, args);
}

proof fn lemma_nothing_left()
    ensures
        past_gap(Seq::empty(), false) == Seq::<char>::empty(),
        past_gap(Seq::empty(), true) == Seq::<char>::empty(),
        past_brackets(Seq::empty()) == Some(Seq::<char>::empty()),
{
    assert(past_comment(Seq::empty()) is None);
}

proof fn lemma_one_argument(argument: Seq<char>)
    ensures
        ({
            let args = seq!['('] + text::quoted(argument, '\'') + seq![')'];
            past_gap(args, false) == args && past_brackets(args) == Some(Seq::<char>::empty())
        }),
{
    let args = seq!['('] + text::quoted(argument, '\'') + seq![')'];
    let inner = args.skip(1);
    let close = seq![')'];
    assert(inner =~= text::quoted(argument, '\'') + close);
    text::law_quoted_reads_back(argument, '\'', close);
    assert(inner[0] == '\'');
    assert(past_comment(inner) is None);
    assert(past_gap(inner, false) == inner);
    assert(past_argument(inner) == Some(close));
    assert(past_comment(close) is None);
    assert(past_gap(close, false) == close);
    assert(close.skip(1) =~= Seq::<char>::empty());
    assert(past_arguments(inner) == Some(Seq::<char>::empty()));
    assert(args[0] == '(');
    assert(past_comment(args) is None);
}

proof fn lemma_pragma_verdict(name: Seq<char>, rest: Seq<char>)
    requires
        name.len() > 0,
        forall|i: int| 0 <= i < name.len() ==> word_char(#[trigger] name[i]),
        rest.len() > 0 ==> rest[0] == '(' && rest.last() == ')',
        past_gap(rest, false) == rest,
        past_brackets(rest) == Some(Seq::<char>::empty()),
    ensures
        ({
            let u = text::upper_ascii(name);
            sql_verdict("PRAGMA "@ + name + rest) is Ok <==> text::contains(u, "TABLE_INFO"@)
                || text::contains(u, "DATABASE_LIST"@) || text::contains(u, "TABLES"@)
                || text::contains(u, "COLUMNS"@)
        }),
{
    let t = "PRAGMA "@ + name + rest;
    assert(text::trim(t) == t) by {
        reveal_strlit("PRAGMA ");
        assert(word_char(name[name.len() - 1]));
        assert(t[0] == 'P');
        assert(t.last() == if rest.len() > 0 {
            ')'
        } else {
            name[name.len() - 1]
        });
        text::law_trimming_only_takes_the_ends(t, |c: char| text::is_white(c));
    }
    lemma_pragma_named(name, rest);
    lemma_nothing_left();
    assert(pragma_name(t) == Some(name));
}

proof fn lemma_pragma_named(name: Seq<char>, rest: Seq<char>)
    requires
        name.len() > 0,
        forall|i: int| 0 <= i < name.len() ==> word_char(#[trigger] name[i]),
        rest.len() > 0 ==> rest[0] == '(',
    ensures
        ({
            let t = "PRAGMA "@ + name + rest;
            let from = past_gap(t.skip(6), false);
            &&& is_pragma(t)
            &&& from == name + rest
            &&& t.skip(6).len() == from.len() + 1
            &&& past_name(from) == rest
            &&& text::split(from.take(from.len() - rest.len()), '.').last() == name
        }),
{
    reveal_strlit("PRAGMA ");
    reveal_strlit("pragma");
    let t = "PRAGMA "@ + name + rest;
    let from = name + rest;
    assert(t.take(6) =~= seq!['P', 'R', 'A', 'G', 'M', 'A']);
    assert("pragma"@ =~= seq!['p', 'r', 'a', 'g', 'm', 'a']);
    assert(text::same_ignoring_case(t.take(6), "pragma"@)) by {
        let a = t.take(6);
        let b = "pragma"@;
        assert forall|i: int| 0 <= i < a.len() implies text::ascii_lower(#[trigger] a[i])
            == text::ascii_lower(b[i]) by {
            text::law_cases_of_letters(a[i], a, b);
            text::law_cases_of_letters(b[i], a, b);
            assert(a[i] as u32 + 32 == b[i] as u32);
        }
    }
    assert(t.skip(6)[0] == ' ');
    assert(t.skip(6).skip(1) =~= from);
    assert(word_char(name[0]));
    assert(from[0] == name[0]);
    assert(past_comment(from) is None);
    assert(past_gap(from, false) == from);
    assert(past_gap(t.skip(6), false) == past_gap(from, false));
    lemma_past_whole_name(name, rest);
    assert(from.take(from.len() - rest.len()) =~= name);
    assert forall|i: int| 0 <= i < name.len() implies name[i] != '.' by {
        assert(word_char(name[i]));
    }
    text::law_splitting_splits_at_each_separator(name, '.', Seq::empty());
}

// ---------------------------------------------------------------------------
// Engine errors
// ---------------------------------------------------------------------------

/// The category of an engine error, by its message.
pub open spec fn error_category(m: Seq<char>) -> Seq<char> {
    if text::contains(m, "Candidate bindings"@) {
        "column_not_found"@
    } else if text::contains(m, "does not exist"@) {
        "table_not_found"@
    } else if text::contains(m, "Syntax error"@) {
        "syntax_error"@
    } else if text::contains(m, "Type mismatch"@) {
        "type_mismatch"@
    } else {
        "execution_error"@
    }
}

impl DbContext {
    /// The category of an engine error, by its message.
    pub fn classify_sql_error(err_msg: &str) -> (r: String)
        ensures
            r@ == error_category(err_msg@),
    {
        if text::has(err_msg, "Candidate bindings") {
            "column_not_found".to_owned()
        } else if text::has(err_msg, "does not exist") {
            "table_not_found".to_owned()
        } else if text::has(err_msg, "Syntax error") {
            "syntax_error".to_owned()
        } else if text::has(err_msg, "Type mismatch") {
            "type_mismatch".to_owned()
        } else {
            "execution_error".to_owned()
        }
    }
}

// ---------------------------------------------------------------------------
// Mending a misspelt column
// ---------------------------------------------------------------------------

/// The text between the first `p` and the first `s` behind it.
pub open spec fn between(h: Seq<char>, p: Seq<char>, s: Seq<char>) -> Option<Seq<char>> {
    match text::find_first(h, p) {
        None => None,
        Some(i) => {
            let rest = h.skip(i + p.len());
            match text::find_first(rest, s) {
                None => None,
                Some(j) => Some(rest.take(j)),
            }
        },
    }
}

/// The text between the first `prefix` and the first `suffix` behind it.
pub fn extract_between<'a>(haystack: &'a str, prefix: &str, suffix: &str) -> (r: Option<&'a str>)
    ensures
        match r {
            Some(t) => between(haystack@, prefix@, suffix@) == Some(t@),
            None => between(haystack@, prefix@, suffix@) is None,
        },
{
    let h = text::chars_of(haystack);
    let n: usize = h.len();
    let p = text::chars_of(prefix);
    let s = text::chars_of(suffix);
    match text::find(&h, &p) {
        None => None,
        Some(i) => {
            let start: usize = i + p.len();
            let rest = haystack.substring_char(start, n);
            proof {
                assert(rest@ == haystack@.skip(start as int));
            }
            let r = text::chars_of(rest);
            match text::find(&r, &s) {
                None => None,
                Some(j) => {
                    let found = rest.substring_char(0, j);
                    proof {
                        assert(found@ == rest@.take(j as int));
                    }
                    Some(found)
                },
            }
        },
    }
}

/// The first piece, from position `i` on, that names something once blanks and
/// double quotes around it are gone.
pub open spec fn first_named(pieces: Seq<Seq<char>>, i: int) -> Option<Seq<char>>
    decreases pieces.len() - i,
{
    if i < 0 || i >= pieces.len() {
        None
    } else {
        let c = text::trim_char(text::trim(pieces[i]), '"');
        if c.len() > 0 {
            Some(c)
        } else {
            first_named(pieces, i + 1)
        }
    }
}

/// The first candidate that an engine error offers.
pub open spec fn candidate(m: Seq<char>) -> Option<Seq<char>> {
    match text::find_first(m, "Candidate bindings:"@) {
        None => None,
        Some(i) => first_named(
            text::split(text::split(m.skip(i + "Candidate bindings:"@.len()), '\n')[0], ','),
            0,
        ),
    }
}

/// The misspelt column that an engine error names.
pub open spec fn misspelt(m: Seq<char>) -> Option<Seq<char>> {
    between(m, "Referenced column \""@, "\" not found"@)
}

/// The misspelt column and what to put in its place, as an engine error tells.
pub open spec fn repair(m: Seq<char>) -> Option<(Seq<char>, Seq<char>)> {
    match (misspelt(m), candidate(m)) {
        (Some(bad), Some(good)) => Some((bad, good)),
        _ => None,
    }
}

/// The misspelt column and the first candidate for it, where an engine error
/// tells both.
pub fn read_repair(error_msg: &str) -> (r: Option<(String, String)>)
    ensures
        match r {
            Some((bad, good)) => repair(error_msg@) == Some((bad@, good@)),
            None => repair(error_msg@) is None,
        },
{
    let bad: String = match extract_between(error_msg, "Referenced column \"", "\" not found") {
        None => {
            return None;
        },
        Some(b) => b.to_owned(),
    };
    let m = text::chars_of(error_msg);
    let n: usize = m.len();
    let p = text::chars_of("Candidate bindings:");
    match text::find(&m, &p) {
        None => None,
        Some(i) => {
            let start: usize = i + p.len();
            let after = text::string_of(&m, start, n);
            proof {
                assert(after@ == error_msg@.skip(start as int));
                text::lemma_split_nonempty(after@, '\n');
            }
            let lines = text::split_on(after.as_str(), '\n');
            let ghost head = text::split(after@, '\n')[0];
            proof {
                assert(text::views(lines@)[0] == head);
            }
            let pieces = text::split_on(lines[0].as_str(), ',');
            let ghost all = text::split(head, ',');
            let mut k: usize = 0;
            while k < pieces.len()
                invariant
                    k <= pieces@.len(),
                    text::views(pieces@) == all,
                    candidate(error_msg@) == first_named(all, k as int),
                    misspelt(error_msg@) == Some(bad@),
                decreases pieces@.len() - k,
            {
                proof {
                    assert(text::views(pieces@)[k as int] == pieces@[k as int]@);
                }
                let t = text::trim_white(pieces[k].as_str());
                let c = text::trim_matches(t.as_str(), '"');
                if !c.as_str().is_empty() {
                    return Some((bad, c));
                }
                k = k + 1;
            }
            None
        },
    }
}

/// The word `o` stands in `s` from position `i` on, as a whole word.
pub open spec fn word_at(s: Seq<char>, o: Seq<char>, i: int) -> bool {
    &&& text::occurs_at(s, o, i)
    &&& i == 0 || !word_char(s[i - 1])
    &&& i + o.len() == s.len() || !word_char(s[i + o.len()])
}

/// What becomes of a query from position `i` on when the word `o` turns into
/// `new` outside single quotes. Everything else comes out as it is.
pub open spec fn reworded(
    s: Seq<char>,
    o: Seq<char>,
    new: Seq<char>,
    i: int,
    quoted: bool,
) -> Seq<char>
    decreases s.len() - i,
{
    if i < 0 || i >= s.len() {
        Seq::empty()
    } else if s[i] == '\'' {
        if quoted && i + 1 < s.len() && s[i + 1] == '\'' {
            seq!['\'', '\''] + reworded(s, o, new, i + 2, quoted)
        } else {
            seq!['\''] + reworded(s, o, new, i + 1, !quoted)
        }
    } else if !quoted && o.len() > 0 && word_at(s, o, i) {
        new + reworded(s, o, new, i + o.len(), quoted)
    } else {
        seq![s[i]] + reworded(s, o, new, i + 1, quoted)
    }
}

/// Somewhere from position `i` on, outside single quotes, the empty word
/// stands: neither the character before nor the character there is part of a
/// word.
pub open spec fn has_gap(s: Seq<char>, i: int, quoted: bool) -> bool
    decreases s.len() - i,
{
    if i < 0 || i >= s.len() {
        false
    } else if s[i] == '\'' {
        if quoted && i + 1 < s.len() && s[i + 1] == '\'' {
            has_gap(s, i + 2, quoted)
        } else {
            has_gap(s, i + 1, !quoted)
        }
    } else {
        !quoted && word_at(s, Seq::empty(), i) || has_gap(s, i + 1, quoted)
    }
}

/// A query in which the word `old` is replaced, by its text alone.
pub open spec fn replaced_in_text(sql: Seq<char>, old_name: Seq<char>, new: Seq<char>) -> Seq<
    char,
> {
    reworded(sql, old_name, new, 0, false)
}

fn stands_at(s: &Vec<char>, o: &Vec<char>, i: usize) -> (r: bool)
    requires
        i < s@.len(),
    ensures
        r == word_at(s@, o@, i as int),
{
    let n: usize = o.len();
    let last: usize = s.len();
    text::matches_at(s, o, i) && (i == 0 || !in_word(s[i - 1])) && (i + n == last || !in_word(
        s[i + n],
    ))
}

/// Replaces the word `old_name` outside single quotes, on the query's text
/// alone.
///
/// With an empty `old_name` the query may hold no gap between words: there the
/// empty word could be replaced without end.
pub fn replace_sql_ident_heuristic(sql: &str, old_name: &str, new_name: &str) -> (r: String)
    requires
        old_name@.len() > 0 || !has_gap(sql@, 0, false),
    ensures
        r@ == replaced_in_text(sql@, old_name@, new_name@),
{
    let s = text::chars_of(sql);
    let o = text::chars_of(old_name);
    let mut out = String::new();
    let mut i: usize = 0;
    let mut quoted: bool = false;
    while i < s.len()
        invariant
            i <= s@.len(),
            o@.len() > 0 || !has_gap(s@, i as int, quoted),
            out@ + reworded(s@, o@, new_name@, i as int, quoted) == reworded(
                s@,
                o@,
                new_name@,
                0,
                false,
            ),
        decreases s@.len() - i,
    {
        let ghost before = out@;
        let ghost rest = reworded(s@, o@, new_name@, i as int, quoted);
        let c: char = s[i];
        if c == '\'' {
            if quoted && i + 1 < s.len() && s[i + 1] == '\'' {
                out.push('\'');
                out.push('\'');
                i = i + 2;
                proof {
                    assert(out@ + reworded(s@, o@, new_name@, i as int, quoted) == before + rest);
                }
            } else {
                quoted = !quoted;
                out.push('\'');
                i = i + 1;
                proof {
                    assert(out@ + reworded(s@, o@, new_name@, i as int, quoted) == before + rest);
                }
            }
        } else if !quoted && stands_at(&s, &o, i) {
            proof {
                if o@.len() == 0 {
                    assert(o@ == Seq::<char>::empty());
                    assert(false);
                }
            }
            out.append(new_name);
            i = i + o.len();
            proof {
                assert(out@ + reworded(s@, o@, new_name@, i as int, quoted) == before + rest);
            }
        } else {
            out.push(c);
            i = i + 1;
            proof {
                assert(out@ + reworded(s@, o@, new_name@, i as int, quoted) == before + rest);
            }
        }
    }
    proof {
        assert(out@ + Seq::<char>::empty() == out@);
    }
    out
}

/// The query's text, outside single quotes, holds a gap between words.
fn gap_in(sql: &str) -> (r: bool)
    ensures
        r == has_gap(sql@, 0, false),
{
    let s = text::chars_of(sql);
    let nothing: Vec<char> = Vec::new();
    let mut i: usize = 0;
    let mut quoted: bool = false;
    while i < s.len()
        invariant
            i <= s@.len(),
            nothing@ == Seq::<char>::empty(),
            s@ == sql@,
            has_gap(s@, i as int, quoted) == has_gap(s@, 0, false),
        decreases s@.len() - i,
    {
        if s[i] == '\'' {
            if quoted && i + 1 < s.len() && s[i + 1] == '\'' {
                i = i + 2;
            } else {
                quoted = !quoted;
                i = i + 1;
            }
        } else if !quoted && stands_at(&s, &nothing, i) {
            return true;
        } else {
            i = i + 1;
        }
    }
    false
}

/// The string literals of a text, in order: what stands between single quotes, a
/// doubled quote being one. The last may lack its closing quote.
pub open spec fn literals(s: Seq<char>) -> Seq<Seq<char>>
    decreases s.len(),
{
    if s.len() == 0 {
        Seq::empty()
    } else if s[0] != '\'' {
        literals(s.skip(1))
    } else {
        match text::read_quoted(s.skip(1), '\'') {
            Some((lit, rest)) => if rest.len() < s.len() {
                seq![lit] + literals(rest)
            } else {
                Seq::empty()
            },
            None => seq![s.skip(1)],
        }
    }
}

/// Behind an opening quote, a literal comes out as it is up to its end, with its
/// closing quote where it has one.
proof fn lemma_quoted_kept(s: Seq<char>, o: Seq<char>, new: Seq<char>, i: int)
    requires
        0 <= i <= s.len(),
    ensures
        match text::read_quoted(s.skip(i), '\'') {
            Some((lit, rest)) => {
                let k = s.len() - rest.len();
                &&& i < k <= s.len()
                &&& rest == s.skip(k)
                &&& rest.len() > 0 ==> rest[0] != '\''
                &&& reworded(s, o, new, i, true) == s.subrange(i, k) + reworded(
                    s,
                    o,
                    new,
                    k,
                    false,
                )
            },
            None => reworded(s, o, new, i, true) == s.skip(i),
        },
    decreases s.len() - i,
{
    let t = s.skip(i);
    if i < s.len() {
        assert(t.skip(1) == s.skip(i + 1));
        assert(t[0] == s[i]);
        if s[i] == '\'' {
            if i + 1 < s.len() && s[i + 1] == '\'' {
                assert(t[1] == s[i + 1]);
                assert(t.skip(2) == s.skip(i + 2));
                lemma_quoted_kept(s, o, new, i + 2);
                match text::read_quoted(s.skip(i + 2), '\'') {
                    Some((lit, rest)) => {
                        let k = s.len() - rest.len();
                        assert(s.subrange(i, k) =~= seq!['\'', '\''] + s.subrange(i + 2, k));
                        assert(reworded(s, o, new, i, true) =~= s.subrange(i, k) + reworded(
                            s,
                            o,
                            new,
                            k,
                            false,
                        ));
                    },
                    None => {
                        assert(s.skip(i) =~= seq!['\'', '\''] + s.skip(i + 2));
                    },
                }
            } else {
                assert(i + 1 < s.len() ==> t[1] == s[i + 1]);
                assert(s.subrange(i, i + 1) =~= seq!['\'']);
            }
        } else {
            lemma_quoted_kept(s, o, new, i + 1);
            match text::read_quoted(s.skip(i + 1), '\'') {
                Some((lit, rest)) => {
                    let k = s.len() - rest.len();
                    assert(s.subrange(i, k) =~= seq![s[i]] + s.subrange(i + 1, k));
                    assert(reworded(s, o, new, i, true) =~= s.subrange(i, k) + reworded(
                        s,
                        o,
                        new,
                        k,
                        false,
                    ));
                },
                None => {
                    assert(s.skip(i) =~= seq![s[i]] + s.skip(i + 1));
                },
            }
        }
    } else {
        assert(reworded(s, o, new, i, true) =~= s.skip(i));
    }
}

proof fn lemma_read_ahead(s: Seq<char>, q: char, more: Seq<char>)
    requires
        text::read_quoted(s, q) matches Some((_, rest)) && rest.len() == 0,
        more.len() > 0 ==> more[0] != q,
    ensures
        text::read_quoted(s, q) matches Some((lit, _)) && text::read_quoted(s + more, q) == Some(
            (lit, more),
        ),
    decreases s.len(),
{
    let t = s + more;
    assert(t[0] == s[0]);
    assert(t.skip(1) =~= s.skip(1) + more);
    if s[0] == q {
        if s.len() > 1 && s[1] == q {
            assert(t[1] == s[1]);
            assert(t.skip(2) =~= s.skip(2) + more);
            lemma_read_ahead(s.skip(2), q, more);
        } else {
            assert(s.skip(1).len() == 0);
            assert(s.skip(1) + more =~= more);
            assert(t.len() > 1 ==> t[1] == more[0]);
        }
    } else {
        lemma_read_ahead(s.skip(1), q, more);
    }
}

proof fn lemma_read_prefix(s: Seq<char>, q: char, k: int)
    requires
        text::read_quoted(s, q) matches Some((_, rest)) && rest.len() == s.len() - k,
        0 <= k <= s.len(),
    ensures
        text::read_quoted(s, q) matches Some((lit, _)) && text::read_quoted(s.take(k), q) == Some(
            (lit, Seq::<char>::empty()),
        ),
    decreases s.len(),
{
    let t = s.take(k);
    if s[0] == q {
        if s.len() > 1 && s[1] == q {
            lemma_rest_shorter(s.skip(2), q);
            assert(t[0] == s[0] && t[1] == s[1]);
            assert(t.skip(2) =~= s.skip(2).take(k - 2));
            lemma_read_prefix(s.skip(2), q, k - 2);
        } else {
            assert(k == 1);
            assert(t[0] == q);
            assert(t.skip(1) =~= Seq::<char>::empty());
        }
    } else {
        lemma_rest_shorter(s.skip(1), q);
        assert(t[0] == s[0]);
        assert(t.skip(1) =~= s.skip(1).take(k - 1));
        lemma_read_prefix(s.skip(1), q, k - 1);
    }
}

proof fn lemma_rest_shorter(s: Seq<char>, q: char)
    ensures
        text::read_quoted(s, q) matches Some((_, rest)) ==> rest.len() < s.len(),
    decreases s.len(),
{
    if s.len() > 0 {
        if s[0] == q && s.len() > 1 && s[1] == q {
            lemma_rest_shorter(s.skip(2), q);
        } else if s[0] != q {
            lemma_rest_shorter(s.skip(1), q);
        }
    }
}

proof fn lemma_no_literal_before(p: Seq<char>, rest: Seq<char>)
    requires
        forall|j: int| 0 <= j < p.len() ==> #[trigger] p[j] != '\'',
    ensures
        literals(p + rest) == literals(rest),
    decreases p.len(),
{
    if p.len() == 0 {
        assert(p + rest =~= rest);
    } else {
        let t = p + rest;
        assert(t[0] == p[0]);
        assert(t.skip(1) =~= p.skip(1) + rest);
        lemma_no_literal_before(p.skip(1), rest);
    }
}

proof fn lemma_literals_kept(s: Seq<char>, o: Seq<char>, new: Seq<char>, i: int)
    requires
        0 <= i <= s.len(),
        new.len() > 0,
        forall|j: int| 0 <= j < new.len() ==> #[trigger] new[j] != '\'',
        forall|j: int| 0 <= j < o.len() ==> #[trigger] o[j] != '\'',
    ensures
        literals(reworded(s, o, new, i, false)) == literals(s.skip(i)),
        i < s.len() && s[i] != '\'' ==> reworded(s, o, new, i, false).len() > 0 && reworded(
            s,
            o,
            new,
            i,
            false,
        )[0] != '\'',
    decreases s.len() - i,
{
    let out = reworded(s, o, new, i, false);
    let t = s.skip(i);
    if i < s.len() {
        assert(t[0] == s[i]);
        assert(t.skip(1) == s.skip(i + 1));
        if s[i] == '\'' {
            lemma_quoted_kept(s, o, new, i + 1);
            let inner = reworded(s, o, new, i + 1, true);
            assert(out.skip(1) =~= inner);
            assert(out[0] == '\'');
            match text::read_quoted(t.skip(1), '\'') {
                Some((lit, rest)) => {
                    let k = s.len() - rest.len();
                    lemma_literals_kept(s, o, new, k);
                    let after = reworded(s, o, new, k, false);
                    let head = s.subrange(i + 1, k);
                    assert(head =~= t.skip(1).take(k - i - 1));
                    lemma_read_prefix(t.skip(1), '\'', k - i - 1);
                    if k < s.len() {
                        assert(rest[0] == s[k]);
                    } else {
                        assert(after.len() == 0);
                    }
                    lemma_read_ahead(head, '\'', after);
                    assert(text::read_quoted(inner, '\'') == Some((lit, after)));
                    assert(literals(out) == seq![lit] + literals(after));
                },
                None => {
                    assert(out =~= t);
                },
            }
        } else if o.len() > 0 && word_at(s, o, i) {
            lemma_literals_kept(s, o, new, i + o.len());
            lemma_no_literal_before(new, reworded(s, o, new, i + o.len(), false));
            let w = s.subrange(i, i + o.len());
            assert(t =~= w + s.skip(i + o.len()));
            lemma_no_literal_before(w, s.skip(i + o.len()));
        } else {
            lemma_literals_kept(s, o, new, i + 1);
            let rest = reworded(s, o, new, i + 1, false);
            lemma_no_literal_before(seq![s[i]], rest);
        }
    }
}

/// String literals survive: a query in which a word was replaced by its text has
/// the same literals, whatever characters they hold, in the same order. Neither
/// the word nor its replacement may hold a single quote, and the replacement may
/// not be empty, for then two literals could run together.
pub proof fn law_literals_survive(sql: Seq<char>, old_name: Seq<char>, new: Seq<char>)
    requires
        new.len() > 0,
        !new.contains('\''),
        !old_name.contains('\''),
    ensures
        literals(replaced_in_text(sql, old_name, new)) == literals(sql),
{
    lemma_literals_kept(sql, old_name, new, 0);
    assert(sql.skip(0) == sql);
}

proof fn lemma_absent(s: Seq<char>, o: Seq<char>, new: Seq<char>, i: int, quoted: bool)
    requires
        0 <= i <= s.len(),
        forall|j: int| 0 <= j < s.len() ==> !word_at(s, o, j),
    ensures
        reworded(s, o, new, i, quoted) == s.skip(i),
    decreases s.len() - i,
{
    if i < s.len() {
        assert(!word_at(s, o, i));
        if s[i] == '\'' && quoted && i + 1 < s.len() && s[i + 1] == '\'' {
            lemma_absent(s, o, new, i + 2, quoted);
            assert(s.skip(i) == seq!['\'', '\''] + s.skip(i + 2));
        } else {
            lemma_absent(s, o, new, i + 1, if s[i] == '\'' { !quoted } else { quoted });
            assert(s.skip(i) == seq![s[i]] + s.skip(i + 1));
        }
    } else {
        assert(s.skip(i) == Seq::<char>::empty());
    }
}

/// A word that a query does not hold leaves the query as it is.
pub proof fn law_absent_word_changes_nothing(sql: Seq<char>, old_name: Seq<char>, new: Seq<char>)
    requires
        forall|j: int| 0 <= j < sql.len() ==> !word_at(sql, old_name, j),
    ensures
        replaced_in_text(sql, old_name, new) == sql,
{
    lemma_absent(sql, old_name, new, 0, false);
    assert(sql.skip(0) == sql);
}

/// The column identifiers in the expressions of a query, part by part, in the
/// order in which `sqlparser` visits them; none where the query does not parse.
pub uninterp spec fn sql_idents(sql: Seq<char>) -> Option<Seq<Seq<char>>>;

/// The statements of a query, as `sqlparser` renders them once its column
/// identifiers, in the order in which they are visited, read `idents`; none
/// where the query does not parse.
pub uninterp spec fn sql_with_idents(sql: Seq<char>, idents: Seq<Seq<char>>) -> Option<
    Seq<Seq<char>>,
>;

/// What optional strings hold.
pub open spec fn strings_view(r: Option<Vec<String>>) -> Option<Seq<Seq<char>>> {
    match r {
        Some(v) => Some(text::views(v@)),
        None => None,
    }
}

/// `sqlparser::ast::visit_expressions_mut` over the statements that
/// `Parser::parse_sql` reads in DuckDB's dialect, which collects the identifiers
/// that stand as expressions, the parts of a dotted one one by one: a function
/// of the text, which gives none exactly where the query does not parse.
#[verifier::external_body]
fn list_idents(sql: &str) -> (r: Option<Vec<String>>)
    ensures
        strings_view(r) == sql_idents(sql@),
        r is Some <==> parsed_sql(sql@) is Ok,
{
    let dialect = sqlparser::dialect::DuckDbDialect {  };
    let mut v = sqlparser::parser::Parser::parse_sql(&dialect, sql).ok()?;
    let mut found = Vec::new();
    let _ = sqlparser::ast::visit_expressions_mut(&mut v, |e: &mut Expr| {
        match e {
            Expr::Identifier(i) => found.push(i.value.clone()),
            Expr::CompoundIdentifier(all) => found.extend(all.iter().map(|i| i.value.clone())),
            _ => {},
        }
        std::ops::ControlFlow::<()>::Continue(())
    });
    Some(found)
}

/// `sqlparser::ast::visit_expressions_mut` over the same statements, which sets
/// the identifiers that `list_idents` collects, in the same order, each
/// statement then rendered by its `Display`: a function of the two arguments,
/// which gives one text for each statement, and none exactly where the query
/// does not parse. That nothing but the identifiers changes is not claimed.
#[verifier::external_body]
fn set_idents(sql: &str, idents: Vec<String>) -> (r: Option<Vec<String>>)
    requires
        sql_idents(sql@) matches Some(found) ==> found.len() == idents@.len(),
    ensures
        strings_view(r) == sql_with_idents(sql@, text::views(idents@)),
        r is Some <==> parsed_sql(sql@) is Ok,
        r is Some ==> r->0@.len() == parsed_sql(sql@)->Ok_0.len(),
{
    let dialect = sqlparser::dialect::DuckDbDialect {  };
    let mut v = sqlparser::parser::Parser::parse_sql(&dialect, sql).ok()?;
    let mut it = idents.into_iter();
    let _ = sqlparser::ast::visit_expressions_mut(&mut v, |e: &mut Expr| {
        match e {
            Expr::Identifier(i) => i.value = it.next().unwrap_or_default(),
            Expr::CompoundIdentifier(all) => for i in all {
                i.value = it.next().unwrap_or_default();
            },
            _ => {},
        }
        std::ops::ControlFlow::<()>::Continue(())
    });
    Some(v.iter().map(|s| s.to_string()).collect())
}

/// An identifier that reads `old_name`, whatever the case, turns into
/// `new_name`; any other stays.
pub open spec fn renaming(ident: Seq<char>, old_name: Seq<char>, new_name: Seq<char>) -> Seq<
    char,
> {
    if text::same_ignoring_case(ident, old_name) {
        new_name
    } else {
        ident
    }
}

/// Identifiers of which each that reads `old_name`, whatever the case, turned
/// into `new_name`.
pub open spec fn all_renamed(
    idents: Seq<Seq<char>>,
    old_name: Seq<char>,
    new_name: Seq<char>,
) -> Seq<Seq<char>> {
    Seq::new(idents.len(), |i: int| renaming(idents[i], old_name, new_name))
}

/// An identifier that reads `old_name`, whatever the case, turns into
/// `new_name`; any other stays.
pub fn renamed(ident: &str, old_name: &str, new_name: &str) -> (r: String)
    ensures
        r@ == renaming(ident@, old_name@, new_name@),
{
    if text::eq_ignoring_case(ident, old_name) {
        new_name.to_owned()
    } else {
        ident.to_owned()
    }
}

/// The identifiers, of which each that reads `old_name`, whatever the case,
/// turns into `new_name`.
pub fn rename_all(idents: &Vec<String>, old_name: &str, new_name: &str) -> (r: Vec<String>)
    ensures
        text::views(r@) == all_renamed(text::views(idents@), old_name@, new_name@),
{
    let ghost want = all_renamed(text::views(idents@), old_name@, new_name@);
    let mut out: Vec<String> = Vec::new();
    let mut i: usize = 0;
    while i < idents.len()
        invariant
            i <= idents@.len(),
            want == all_renamed(text::views(idents@), old_name@, new_name@),
            text::views(out@) == want.take(i as int),
        decreases idents@.len() - i,
    {
        let ghost before = out@;
        let one = renamed(idents[i].as_str(), old_name, new_name);
        out.push(one);
        proof {
            assert(text::views(out@) == text::views(before).push(one@));
            assert(text::views(idents@)[i as int] == idents@[i as int]@);
            assert(want.take(i + 1) == want.take(i as int).push(one@));
        }
        i = i + 1;
    }
    proof {
        assert(want.take(i as int) == want);
    }
    out
}

/// A query in which the column `old_name` is replaced through its syntax tree;
/// none where it does not parse.
pub open spec fn replaced_in_tree(
    sql: Seq<char>,
    old_name: Seq<char>,
    new_name: Seq<char>,
) -> Option<Seq<char>> {
    match sql_idents(sql) {
        Some(idents) => match sql_with_idents(sql, all_renamed(idents, old_name, new_name)) {
            Some(parts) => Some(text::join(parts, "; "@)),
            None => None,
        },
        None => None,
    }
}

/// Replaces the column `old_name` through the query's syntax tree; none where
/// the query does not parse.
pub fn replace_sql_ident_ast(sql: &str, old_name: &str, new_name: &str) -> (r: Option<String>)
    ensures
        match r {
            Some(t) => replaced_in_tree(sql@, old_name@, new_name@) == Some(t@),
            None => replaced_in_tree(sql@, old_name@, new_name@) is None,
        },
        r is Some <==> parsed_sql(sql@) is Ok,
{
    match list_idents(sql) {
        Some(idents) => {
            let fresh = rename_all(&idents, old_name, new_name);
            proof {
                assert(text::views(fresh@).len() == text::views(idents@).len());
            }
            match set_idents(sql, fresh) {
                Some(parts) => Some(text::join_with(&parts, "; ")),
                None => None,
            }
        },
        None => None,
    }
}

/// Through the syntax tree, exactly the identifiers that read `old_name`,
/// whatever the case, are renamed: there are as many identifiers as before, each
/// of those reads `new_name`, and every other reads as before.
pub proof fn law_only_the_column_is_renamed(
    idents: Seq<Seq<char>>,
    old_name: Seq<char>,
    new_name: Seq<char>,
    i: int,
)
    requires
        0 <= i < idents.len(),
    ensures
        all_renamed(idents, old_name, new_name).len() == idents.len(),
        text::same_ignoring_case(idents[i], old_name) ==> all_renamed(
            idents,
            old_name,
            new_name,
        )[i] == new_name,
        !text::same_ignoring_case(idents[i], old_name) ==> all_renamed(
            idents,
            old_name,
            new_name,
        )[i] == idents[i],
{
}

/// A column that no expression of the query names leaves every identifier of its
/// tree as it was.
pub proof fn law_absent_column_renames_nothing(
    sql: Seq<char>,
    old_name: Seq<char>,
    new_name: Seq<char>,
)
    requires
        sql_idents(sql) is Some,
        forall|i: int|
            0 <= i < sql_idents(sql)->0.len() ==> !text::same_ignoring_case(
                #[trigger] sql_idents(sql)->0[i],
                old_name,
            ),
    ensures
        replaced_in_tree(sql, old_name, new_name) == match sql_with_idents(
            sql,
            sql_idents(sql)->0,
        ) {
            Some(parts) => Some(text::join(parts, "; "@)),
            None => None,
        },
{
    assert(all_renamed(sql_idents(sql)->0, old_name, new_name) == sql_idents(sql)->0);
}

/// A query in which the column `old_name` is replaced: through its syntax tree
/// where it parses, else by its text.
pub open spec fn replaced(sql: Seq<char>, old_name: Seq<char>, new_name: Seq<char>) -> Seq<char> {
    match replaced_in_tree(sql, old_name, new_name) {
        Some(t) => t,
        None => replaced_in_text(sql, old_name, new_name),
    }
}

/// Replacing the column in the query comes to an end.
pub open spec fn replaceable(sql: Seq<char>, old_name: Seq<char>) -> bool {
    ||| old_name.len() > 0
    ||| parsed_sql(sql) is Ok
    ||| !has_gap(sql, 0, false)
}

/// Replaces the column `old_name` in the query: through its syntax tree where
/// it parses, else by its text.
pub fn replace_sql_ident(sql: &str, old_name: &str, new_name: &str) -> (r: String)
    requires
        replaceable(sql@, old_name@),
    ensures
        r@ == replaced(sql@, old_name@, new_name@),
{
    match replace_sql_ident_ast(sql, old_name, new_name) {
        Some(fixed) => fixed,
        None => replace_sql_ident_heuristic(sql, old_name, new_name),
    }
}

/// The query with the column mended that an engine error complains of; none
/// where the error does not name the column and a candidate.
pub open spec fn fixed_sql(query: Seq<char>, m: Seq<char>) -> Option<Seq<char>> {
    match repair(m) {
        None => None,
        Some((bad, good)) => Some(replaced(query, bad, good)),
    }
}

/// Mending the query by the error comes to an end.
pub open spec fn fixable(query: Seq<char>, m: Seq<char>) -> bool {
    repair(m) matches Some((bad, _)) ==> replaceable(query, bad)
}

impl DbContext {
    /// Mends the misspelt column that an engine error names, with the first
    /// candidate that the error offers; none where it does not name both.
    pub fn auto_fix_sql(original_query: &str, error_msg: &str) -> (r: Option<String>)
        requires
            fixable(original_query@, error_msg@),
        ensures
            match r {
                Some(t) => fixed_sql(original_query@, error_msg@) == Some(t@),
                None => fixed_sql(original_query@, error_msg@) is None,
            },
    {
        match read_repair(error_msg) {
            None => None,
            Some((bad, good)) => Some(
                replace_sql_ident(original_query, bad.as_str(), good.as_str()),
            ),
        }
    }

    /// Mends the query as `auto_fix_sql` does, for any query and error: the
    /// outcome is none too where the error names an empty column and replacing
    /// that in the query would not end.
    pub fn mend_sql(original_query: &str, error_msg: &str) -> (r: Option<String>)
        ensures
            match r {
                Some(t) => fixable(original_query@, error_msg@) && fixed_sql(
                    original_query@,
                    error_msg@,
                ) == Some(t@),
                None => !fixable(original_query@, error_msg@) || fixed_sql(
                    original_query@,
                    error_msg@,
                ) is None,
            },
    {
        match read_repair(error_msg) {
            None => None,
            Some((bad, _)) => {
                if bad.as_str().is_empty() {
                    let parsed = parse_statements(original_query);
                    if parsed.is_err() && gap_in(original_query) {
                        return None;
                    }
                }
                DbContext::auto_fix_sql(original_query, error_msg)
            },
        }
    }
}

// ---------------------------------------------------------------------------
// What mending is for
// ---------------------------------------------------------------------------

/// An error is called by what the engine says of it: a column that was not found
/// where it offers candidates, else a table that does not exist, else a syntax
/// error, else a mismatch of types; anything else failed while it ran.
pub proof fn law_errors_have_their_category(m: Seq<char>)
    ensures
        ({
            let column = text::contains(m, "Candidate bindings"@);
            let table = text::contains(m, "does not exist"@);
            let syntax = text::contains(m, "Syntax error"@);
            let types = text::contains(m, "Type mismatch"@);
            &&& column ==> error_category(m) == "column_not_found"@
            &&& !column && table ==> error_category(m) == "table_not_found"@
            &&& !column && !table && syntax ==> error_category(m) == "syntax_error"@
            &&& !column && !table && !syntax && types ==> error_category(m) == "type_mismatch"@
            &&& !column && !table && !syntax && !types ==> error_category(m) == "execution_error"@
        }),
{
}

/// What stands between two marks is found: from the first of the one to the first
/// of the other behind it.
pub proof fn law_between_is_what_stands_between(
    a: Seq<char>,
    p: Seq<char>,
    mid: Seq<char>,
    s: Seq<char>,
    b: Seq<char>,
)
    requires
        text::first_at(a + p + mid + s + b, p, a.len() as int),
        text::first_at(mid + s + b, s, mid.len() as int),
    ensures
        between(a + p + mid + s + b, p, s) == Some(mid),
{
    let h = a + p + mid + s + b;
    text::lemma_first_unique(h, p, a.len() as int);
    text::lemma_first_unique(mid + s + b, s, mid.len() as int);
    assert(h.skip((a.len() + p.len()) as int) =~= mid + s + b);
    assert((mid + s + b).take(mid.len() as int) =~= mid);
}

/// The misspelt column is the one that the engine names as not found.
pub proof fn law_the_named_column_is_misspelt(a: Seq<char>, bad: Seq<char>, b: Seq<char>)
    requires
        text::first_at(
            a + "Referenced column \""@ + bad + "\" not found"@ + b,
            "Referenced column \""@,
            a.len() as int,
        ),
        text::first_at(bad + "\" not found"@ + b, "\" not found"@, bad.len() as int),
    ensures
        misspelt(a + "Referenced column \""@ + bad + "\" not found"@ + b) == Some(bad),
{
    law_between_is_what_stands_between(a, "Referenced column \""@, bad, "\" not found"@, b);
}

proof fn lemma_first_piece(p: Seq<char>, x: Seq<char>, sep: char)
    requires
        !p.contains(sep),
    ensures
        text::split(p + x, sep)[0] == p + text::split(x, sep)[0],
        text::split(p + x, sep).len() == text::split(x, sep).len(),
    decreases x.len(),
{
    text::lemma_split_nonempty(x, sep);
    if x.len() == 0 {
        text::law_splitting_splits_at_each_separator(p, sep, x);
        assert(p + x =~= p);
        assert(text::split(x, sep)[0] =~= Seq::<char>::empty());
        assert(p + text::split(x, sep)[0] =~= p);
    } else {
        let f = x.drop_last();
        lemma_first_piece(p, f, sep);
        text::lemma_split_nonempty(f, sep);
        assert((p + x).drop_last() =~= p + f);
        assert((p + x).last() == x.last());
        let whole = text::split(p + x, sep);
        let part = text::split(x, sep);
        if x.last() != sep && text::split(f, sep).len() == 1 {
            assert(part[0] == text::split(f, sep)[0].push(x.last()));
            assert(whole[0] == text::split(p + f, sep)[0].push(x.last()));
            assert(whole[0] =~= p + part[0]);
        }
    }
}

/// What stands before the first separator is the first piece.
proof fn lemma_piece_ends(p: Seq<char>, x: Seq<char>, sep: char)
    requires
        !p.contains(sep),
        x.len() > 0 ==> x[0] == sep,
    ensures
        text::split(p + x, sep)[0] == p,
{
    lemma_first_piece(p, x, sep);
    let nothing = Seq::<char>::empty();
    if x.len() == 0 {
        assert(text::split(x, sep)[0] =~= nothing);
    } else {
        assert(x =~= nothing + seq![sep] + x.skip(1));
        text::law_splitting_splits_at_each_separator(nothing, sep, x.skip(1));
        assert(text::split(x, sep)[0] == nothing);
    }
    assert(p + nothing =~= p);
}

proof fn lemma_first_in_list(p: Seq<char>, tail: Seq<char>)
    requires
        !p.contains(','),
        !p.contains('\n'),
        tail.len() > 0 ==> tail[0] == ',' || tail[0] == '\n',
    ensures
        text::split(text::split(p + tail, '\n')[0], ',').len() > 0,
        text::split(text::split(p + tail, '\n')[0], ',')[0] == p,
{
    lemma_first_piece(p, tail, '\n');
    let l = text::split(tail, '\n')[0];
    let nothing = Seq::<char>::empty();
    if tail.len() > 0 && tail[0] == ',' {
        let comma = seq![','];
        assert(tail =~= comma + tail.skip(1));
        lemma_first_piece(comma, tail.skip(1), '\n');
        assert(l[0] == ',');
    } else {
        lemma_piece_ends(nothing, tail, '\n');
        assert(nothing + tail =~= tail);
        assert(l == nothing);
    }
    lemma_piece_ends(p, l, ',');
    text::lemma_split_nonempty(p + l, ',');
}

proof fn lemma_unwrapped(w1: Seq<char>, name: Seq<char>, w2: Seq<char>)
    requires
        forall|i: int| 0 <= i < w1.len() ==> text::is_white(#[trigger] w1[i]),
        forall|i: int| 0 <= i < w2.len() ==> text::is_white(#[trigger] w2[i]),
        name.len() > 0,
        !name.contains('"'),
    ensures
        text::trim_char(text::trim(w1 + seq!['"'] + name + seq!['"'] + w2), '"') == name,
{
    let one = seq!['"'];
    let q = one + name + one;
    let white = |c: char| text::is_white(c);
    let p = w1 + one + name + one + w2;
    assert(p =~= w1 + q + w2);
    assert(text::trim(p) == q) by {
        text::law_trimming_ignores_the_margins(w1, q, w2, white);
        text::law_trimming_only_takes_the_ends(q, white);
        assert(q[0] == '"' && q.last() == '"');
    }
    assert(text::trim_char(q, '"') == name) by {
        let quote = text::only('"');
        text::law_trimming_ignores_the_margins(one, name, one, quote);
        text::law_trimming_only_takes_the_ends(name, quote);
        assert(name.contains(name[0]) && name.contains(name.last()));
    }
}

proof fn lemma_wrapping_is_plain(w1: Seq<char>, name: Seq<char>, w2: Seq<char>)
    requires
        forall|i: int| 0 <= i < w1.len() ==> text::is_white(#[trigger] w1[i]) && w1[i] != '\n',
        forall|i: int| 0 <= i < w2.len() ==> text::is_white(#[trigger] w2[i]) && w2[i] != '\n',
        !name.contains(','),
        !name.contains('\n'),
    ensures
        !(w1 + seq!['"'] + name + seq!['"'] + w2).contains(','),
        !(w1 + seq!['"'] + name + seq!['"'] + w2).contains('\n'),
{
    let p = w1 + seq!['"'] + name + seq!['"'] + w2;
    assert forall|i: int| 0 <= i < p.len() implies p[i] != ',' && p[i] != '\n' by {
        if i < w1.len() {
            assert(p[i] == w1[i]);
        } else if i >= w1.len() + name.len() + 2 {
            assert(p[i] == w2[i - w1.len() - name.len() - 2]);
        } else if w1.len() < i < w1.len() + name.len() + 1 {
            assert(p[i] == name[i - w1.len() - 1]);
            assert(name.contains(p[i]));
        }
    }
}

/// The first candidate is taken: where the engine's list of candidates begins with
/// a name between double quotes, that name is the candidate, whatever follows in
/// the list or behind it.
pub proof fn law_first_candidate_is_taken(
    head: Seq<char>,
    w1: Seq<char>,
    name: Seq<char>,
    w2: Seq<char>,
    tail: Seq<char>,
)
    requires
        ({
            let m = head + "Candidate bindings:"@ + (w1 + seq!['"'] + name + seq!['"'] + w2) + tail;
            text::first_at(m, "Candidate bindings:"@, head.len() as int)
        }),
        forall|i: int| 0 <= i < w1.len() ==> text::is_white(#[trigger] w1[i]) && w1[i] != '\n',
        forall|i: int| 0 <= i < w2.len() ==> text::is_white(#[trigger] w2[i]) && w2[i] != '\n',
        name.len() > 0,
        !name.contains('"'),
        !name.contains(','),
        !name.contains('\n'),
        tail.len() > 0 ==> tail[0] == ',' || tail[0] == '\n',
    ensures
        ({
            let m = head + "Candidate bindings:"@ + (w1 + seq!['"'] + name + seq!['"'] + w2) + tail;
            &&& candidate(m) == Some(name)
            &&& repair(m) matches Some((_, good)) ==> good == name
            &&& repair(m) is Some <==> misspelt(m) is Some
            &&& misspelt(m) matches Some(bad) ==> repair(m) == Some((bad, name))
        }),
{
    let mark = "Candidate bindings:"@;
    let p = w1 + seq!['"'] + name + seq!['"'] + w2;
    let m = head + mark + p + tail;
    lemma_wrapping_is_plain(w1, name, w2);
    lemma_first_in_list(p, tail);
    lemma_unwrapped(w1, name, w2);
    text::lemma_first_unique(m, mark, head.len() as int);
    assert(m.skip((head.len() + mark.len()) as int) =~= p + tail);
}

proof fn lemma_named_behind(one: Seq<char>, pieces: Seq<Seq<char>>, i: int)
    requires
        0 <= i <= pieces.len(),
    ensures
        first_named(seq![one] + pieces, i + 1) == first_named(pieces, i),
    decreases pieces.len() - i,
{
    if i < pieces.len() {
        lemma_named_behind(one, pieces, i + 1);
        assert((seq![one] + pieces)[i + 1] == pieces[i]);
    }
}

/// A blank in the list of candidates is passed over: the candidate is that of the
/// list without it.
pub proof fn law_blank_candidates_are_passed_over(
    head: Seq<char>,
    blank: Seq<char>,
    rest: Seq<char>,
)
    requires
        text::first_at(
            head + "Candidate bindings:"@ + (blank + seq![','] + rest),
            "Candidate bindings:"@,
            head.len() as int,
        ),
        text::first_at(
            head + "Candidate bindings:"@ + rest,
            "Candidate bindings:"@,
            head.len() as int,
        ),
        forall|i: int| 0 <= i < blank.len() ==> text::is_white(#[trigger] blank[i]) && blank[i]
            != '\n',
    ensures
        candidate(head + "Candidate bindings:"@ + (blank + seq![','] + rest)) == candidate(
            head + "Candidate bindings:"@ + rest,
        ),
{
    let mark = "Candidate bindings:"@;
    let long = head + mark + (blank + seq![','] + rest);
    let short = head + mark + rest;
    text::lemma_first_unique(long, mark, head.len() as int);
    text::lemma_first_unique(short, mark, head.len() as int);
    assert(long.skip((head.len() + mark.len()) as int) =~= blank + seq![','] + rest);
    assert(short.skip((head.len() + mark.len()) as int) =~= rest);
    let p = blank + seq![','];
    assert forall|i: int| 0 <= i < p.len() implies p[i] != '\n' by {
        if i < blank.len() {
            assert(p[i] == blank[i]);
        }
    }
    lemma_first_piece(p, rest, '\n');
    let line = text::split(rest, '\n')[0];
    assert forall|i: int| 0 <= i < blank.len() implies blank[i] != ',' by {
        assert(text::is_white(blank[i]));
    }
    text::law_splitting_splits_at_each_separator(blank, ',', line);
    let pieces = text::split(line, ',');
    lemma_named_behind(blank, pieces, 0);
    let white = |c: char| text::is_white(c);
    let nothing = Seq::<char>::empty();
    text::law_trimming_ignores_the_margins(blank, nothing, nothing, white);
    assert(blank + nothing + nothing =~= blank);
    assert(text::trim(blank) =~= nothing);
    assert(text::trim_char(nothing, '"') =~= nothing);
    assert((seq![blank] + pieces)[0] == blank);
}

proof fn lemma_copied(s: Seq<char>, o: Seq<char>, new: Seq<char>, i: int, k: int)
    requires
        0 <= i <= k <= s.len(),
        forall|j: int| i <= j < k ==> #[trigger] s[j] != '\'',
        forall|j: int| i <= j < k ==> !#[trigger] word_at(s, o, j),
    ensures
        reworded(s, o, new, i, false) == s.subrange(i, k) + reworded(s, o, new, k, false),
    decreases k - i,
{
    if i < k {
        assert(!word_at(s, o, i));
        lemma_copied(s, o, new, i + 1, k);
        assert(s.subrange(i, k) =~= seq![s[i]] + s.subrange(i + 1, k));
        assert(reworded(s, o, new, i, false) =~= s.subrange(i, k) + reworded(
            s,
            o,
            new,
            k,
            false,
        ));
    } else {
        assert(s.subrange(i, k) + reworded(s, o, new, k, false) =~= reworded(s, o, new, k, false));
    }
}

proof fn lemma_shifted(
    s: Seq<char>,
    b: Seq<char>,
    o: Seq<char>,
    new: Seq<char>,
    k: int,
    i: int,
    quoted: bool,
)
    requires
        0 < k <= s.len(),
        b == s.skip(k),
        0 <= i <= b.len(),
        o.len() > 0,
        b.len() > 0 ==> word_at(s, o, k) == word_at(b, o, 0),
    ensures
        reworded(s, o, new, k + i, quoted) == reworded(b, o, new, i, quoted),
    decreases b.len() - i,
{
    if i < b.len() {
        assert(b[i] == s[k + i]);
        if i + 1 < b.len() {
            assert(b[i + 1] == s[k + i + 1]);
        }
        assert(word_at(s, o, k + i) == word_at(b, o, i)) by {
            if i + o.len() <= b.len() {
                assert(s.subrange(k + i, k + i + o.len()) =~= b.subrange(i, i + o.len()));
                if i + o.len() < b.len() {
                    assert(b[i + o.len()] == s[k + i + o.len()]);
                }
            }
            if i > 0 {
                assert(b[i - 1] == s[k + i - 1]);
            }
        }
        if s[k + i] == '\'' {
            if quoted && i + 1 < b.len() && b[i + 1] == '\'' {
                lemma_shifted(s, b, o, new, k, i + 2, quoted);
            } else {
                lemma_shifted(s, b, o, new, k, i + 1, !quoted);
            }
        } else if !quoted && word_at(b, o, i) {
            lemma_shifted(s, b, o, new, k, i + o.len(), quoted);
        } else {
            lemma_shifted(s, b, o, new, k, i + 1, quoted);
        }
    }
}

/// A whole word outside quotes turns into the new one, what stands before it comes
/// out as it is, and behind it the replacement goes on; letters, digits and
/// underscores make up words.
pub proof fn law_whole_words_are_replaced(
    a: Seq<char>,
    word: Seq<char>,
    b: Seq<char>,
    new: Seq<char>,
    c: char,
)
    requires
        word.len() > 0,
        forall|j: int| 0 <= j < word.len() ==> word_char(#[trigger] word[j]),
        a.len() > 0 ==> !word_char(a.last()),
        b.len() > 0 ==> !word_char(b[0]),
        forall|j: int| 0 <= j < a.len() ==> #[trigger] a[j] != '\'',
        forall|j: int| 0 <= j < a.len() ==> !#[trigger] word_at(a + word + b, word, j),
    ensures
        replaced_in_text(a + word + b, word, new) == a + new + replaced_in_text(b, word, new),
        word_char(c) <==> text::is_alnum(c) || c == '_',
{
    let s = a + word + b;
    let k = (a.len() + word.len()) as int;
    assert forall|j: int| 0 <= j < a.len() implies #[trigger] s[j] != '\'' by {
        assert(s[j] == a[j]);
    }
    lemma_copied(s, word, new, 0, a.len() as int);
    assert(s.subrange(0, a.len() as int) =~= a);
    assert(s.subrange(a.len() as int, k) =~= word);
    assert(s[a.len() as int] == word[0]);
    assert(word_char(word[0]));
    assert(word_at(s, word, a.len() as int)) by {
        if a.len() > 0 {
            assert(s[a.len() - 1] == a.last());
        }
        if b.len() > 0 {
            assert(s[k] == b[0]);
        }
    }
    assert(s.skip(k) =~= b);
    assert(s[k - 1] == word[word.len() - 1]);
    if b.len() > 0 && text::occurs_at(b, word, 0) {
        assert(b.subrange(0, word.len() as int)[0] == b[0]);
    }
    lemma_shifted(s, b, word, new, k, 0, false);
    assert(replaced_in_text(s, word, new) =~= a + new + replaced_in_text(b, word, new));
}

/// Mending a query puts the candidate in the place of the misspelt column and does
/// nothing else: through the tree, where `fresh` are its identifiers with the
/// candidate for each that reads as the column, and on the text where it does not
/// parse. Without a column or a candidate nothing is mended.
pub proof fn law_mending_renames_the_column(
    query: Seq<char>,
    m: Seq<char>,
    fresh: Seq<Seq<char>>,
    parts: Seq<Seq<char>>,
)
    ensures
        misspelt(m) is None || candidate(m) is None ==> fixed_sql(query, m) is None,
        misspelt(m) is Some && candidate(m) is Some && sql_idents(query) is None ==> fixed_sql(
            query,
            m,
        ) == Some(replaced_in_text(query, misspelt(m)->0, candidate(m)->0)),
        (misspelt(m) matches Some(bad) && candidate(m) matches Some(good) && sql_idents(
            query,
        ) matches Some(idents) && fresh.len() == idents.len() && (forall|i: int|
            0 <= i < idents.len() ==> #[trigger] fresh[i] == if text::same_ignoring_case(
                idents[i],
                bad,
            ) {
                good
            } else {
                idents[i]
            }) && sql_with_idents(query, fresh) == Some(parts)) ==> fixed_sql(query, m) == Some(
            text::join(parts, "; "@),
        ),
{
    if misspelt(m) is Some && candidate(m) is Some && sql_idents(query) is Some {
        let bad = misspelt(m)->0;
        let good = candidate(m)->0;
        let idents = sql_idents(query)->0;
        if fresh.len() == idents.len() && (forall|i: int|
            0 <= i < idents.len() ==> #[trigger] fresh[i] == if text::same_ignoring_case(
                idents[i],
                bad,
            ) {
                good
            } else {
                idents[i]
            }) {
            assert(fresh =~= all_renamed(idents, bad, good));
        }
    }
}

/// A column with a name can always be mended, and so can any in a query that parses;
/// and where an error tells no column or no candidate there is nothing to mend.
pub proof fn law_named_columns_can_be_mended(query: Seq<char>, m: Seq<char>)
    ensures
        misspelt(m) matches Some(bad) ==> (bad.len() > 0 ==> fixable(query, m)),
        parsed_sql(query) is Ok ==> fixable(query, m),
        misspelt(m) is None || candidate(m) is None ==> fixable(query, m),
{
}

/// A text is a pragma exactly when its first six characters spell the word, in
/// whatever case.
pub proof fn law_pragmas_begin_with_the_word(word: Seq<char>, rest: Seq<char>)
    ensures
        word.len() == 6 ==> (is_pragma(word + rest) <==> text::same_ignoring_case(word, "pragma"@)),
        word.len() < 6 ==> !is_pragma(word),
{
    assert(word.len() == 6 ==> (word + rest).take(6) =~= word);
}

proof fn lemma_line_ends(c: Seq<char>, rest: Seq<char>)
    requires
        forall|i: int| 0 <= i < c.len() ==> #[trigger] c[i] != '\n' && c[i] != '\r',
        rest.len() > 0 ==> rest[0] == '\n' || rest[0] == '\r',
    ensures
        past_line(c + rest) == rest,
    decreases c.len(),
{
    if c.len() == 0 {
        assert(c + rest =~= rest);
    } else {
        let d = c.skip(1);
        assert forall|i: int| 0 <= i < d.len() implies #[trigger] d[i] != '\n' && d[i] != '\r' by {
            assert(d[i] == c[i + 1]);
        }
        lemma_line_ends(d, rest);
        assert((c + rest)[0] == c[0]);
        assert((c + rest).skip(1) =~= d + rest);
    }
}

/// Blanks and comments make no difference: what stands behind them is what stands
/// there. A comment behind two dashes ends with its line.
pub proof fn law_comments_are_blanks(blank: char, comment: Seq<char>, rest: Seq<char>, stops: bool)
    requires
        forall|i: int| 0 <= i < comment.len() ==> #[trigger] comment[i] != '\n' && comment[i]
            != '\r',
    ensures
        text::is_white(blank) ==> past_gap(seq![blank] + rest, stops) == past_gap(rest, stops),
        past_gap(seq!['-', '-'] + comment + seq!['\n'] + rest, stops) == past_gap(rest, stops),
        past_gap(seq!['-', '-'] + comment, stops).len() == 0,
        past_gap(seq![';'] + rest, true) == past_gap(rest, true),
        past_gap(seq![';'] + rest, false) == seq![';'] + rest,
{
    assert((seq![blank] + rest).skip(1) =~= rest);
    assert((seq![';'] + rest).skip(1) =~= rest);
    let line = seq!['\n'] + rest;
    let s = seq!['-', '-'] + comment + seq!['\n'] + rest;
    assert(s.skip(2) =~= comment + line);
    lemma_line_ends(comment, line);
    assert(past_comment(s) == Some(line));
    assert(past_gap(s, stops) == past_gap(line, stops));
    assert(line.skip(1) =~= rest);
    assert(past_gap(line, stops) == past_gap(rest, stops));
    let nothing = Seq::<char>::empty();
    let t = seq!['-', '-'] + comment;
    assert(t.skip(2) =~= comment + nothing);
    lemma_line_ends(comment, nothing);
    assert(past_comment(t) == Some(nothing));
    lemma_nothing_left();
    assert(past_gap(t, stops) == past_gap(nothing, stops));
}

proof fn lemma_bare(w1: Seq<char>, name: Seq<char>, w2: Seq<char>)
    requires
        forall|i: int| 0 <= i < w1.len() ==> text::is_white(#[trigger] w1[i]) && w1[i] != '\n',
        forall|i: int| 0 <= i < w2.len() ==> text::is_white(#[trigger] w2[i]) && w2[i] != '\n',
        name.len() > 0,
        !text::is_white(name[0]) && !text::is_white(name.last()),
        name[0] != '"' && name.last() != '"',
    ensures
        text::trim_char(text::trim(w1 + name + w2), '"') == name,
{
    let white = |c: char| text::is_white(c);
    assert(text::trim(w1 + name + w2) == name) by {
        text::law_trimming_ignores_the_margins(w1, name, w2, white);
        text::law_trimming_only_takes_the_ends(name, white);
    }
    text::law_trimming_only_takes_the_ends(name, text::only('"'));
}

proof fn lemma_bare_is_plain(w1: Seq<char>, name: Seq<char>, w2: Seq<char>)
    requires
        forall|i: int| 0 <= i < w1.len() ==> text::is_white(#[trigger] w1[i]) && w1[i] != '\n',
        forall|i: int| 0 <= i < w2.len() ==> text::is_white(#[trigger] w2[i]) && w2[i] != '\n',
        !name.contains(','),
        !name.contains('\n'),
    ensures
        !(w1 + name + w2).contains(','),
        !(w1 + name + w2).contains('\n'),
{
    let p = w1 + name + w2;
    assert forall|i: int| 0 <= i < p.len() implies p[i] != ',' && p[i] != '\n' by {
        if i < w1.len() {
            assert(p[i] == w1[i]);
        } else if i >= w1.len() + name.len() {
            assert(p[i] == w2[i - w1.len() - name.len()]);
        } else {
            assert(p[i] == name[i - w1.len()]);
            assert(name.contains(p[i]));
        }
    }
}

/// A candidate without quotes is taken as well: where the list begins with a bare
/// name, that name is the candidate.
pub proof fn law_bare_candidates_are_taken(
    head: Seq<char>,
    w1: Seq<char>,
    name: Seq<char>,
    w2: Seq<char>,
    tail: Seq<char>,
)
    requires
        text::first_at(
            head + "Candidate bindings:"@ + (w1 + name + w2) + tail,
            "Candidate bindings:"@,
            head.len() as int,
        ),
        forall|i: int| 0 <= i < w1.len() ==> text::is_white(#[trigger] w1[i]) && w1[i] != '\n',
        forall|i: int| 0 <= i < w2.len() ==> text::is_white(#[trigger] w2[i]) && w2[i] != '\n',
        name.len() > 0,
        !text::is_white(name[0]) && !text::is_white(name.last()),
        name[0] != '"' && name.last() != '"',
        !name.contains(','),
        !name.contains('\n'),
        tail.len() > 0 ==> tail[0] == ',' || tail[0] == '\n',
    ensures
        candidate(head + "Candidate bindings:"@ + (w1 + name + w2) + tail) == Some(name),
{
    let mark = "Candidate bindings:"@;
    let p = w1 + name + w2;
    let m = head + mark + p + tail;
    lemma_bare_is_plain(w1, name, w2);
    lemma_first_in_list(p, tail);
    lemma_bare(w1, name, w2);
    text::lemma_first_unique(m, mark, head.len() as int);
    assert(m.skip((head.len() + mark.len()) as int) =~= p + tail);
}

/// A literal comes out as it is, whatever words it holds, and behind it the
/// replacement goes on; so it does behind any character that is neither a quote nor
/// part of a word.
pub proof fn law_replacing_passes_over_literals(
    lit: Seq<char>,
    c: char,
    b: Seq<char>,
    word: Seq<char>,
    new: Seq<char>,
)
    requires
        word.len() > 0,
        word_char(word[0]),
        b.len() > 0 ==> b[0] != '\'',
    ensures
        replaced_in_text(text::quoted(lit, '\'') + b, word, new) == text::quoted(lit, '\'')
            + replaced_in_text(b, word, new),
        c != '\'' && !word_char(c) ==> replaced_in_text(seq![c] + b, word, new) == seq![c]
            + replaced_in_text(b, word, new),
{
    let q = text::quoted(lit, '\'');
    let s = q + b;
    let k = q.len() as int;
    text::law_quoted_reads_back(lit, '\'', b);
    lemma_quoted_kept(s, word, new, 1);
    assert(s[0] == q[0]);
    assert(s[k - 1] == '\'');
    assert(s.skip(k) =~= b);
    if b.len() > 0 {
        lemma_same_start(s, b, word, k);
    }
    lemma_shifted(s, b, word, new, k, 0, false);
    assert(q =~= seq!['\''] + s.subrange(1, k));
    assert(replaced_in_text(s, word, new) =~= q + replaced_in_text(b, word, new));
    if c != '\'' && !word_char(c) {
        let t = seq![c] + b;
        assert(t.skip(1) =~= b);
        assert(t[0] == c);
        if text::occurs_at(t, word, 0) {
            assert(t.subrange(0, word.len() as int)[0] == c);
        }
        if b.len() > 0 {
            lemma_same_start(t, b, word, 1);
        }
        lemma_shifted(t, b, word, new, 1, 0, false);
    }
}

proof fn lemma_same_start(s: Seq<char>, b: Seq<char>, o: Seq<char>, k: int)
    requires
        0 < k <= s.len(),
        b == s.skip(k),
        b.len() > 0,
        !word_char(s[k - 1]),
    ensures
        word_at(s, o, k) == word_at(b, o, 0),
{
    if o.len() <= b.len() {
        assert(s.subrange(k, k + o.len()) =~= b.subrange(0, o.len() as int));
        if o.len() < b.len() {
            assert(b[o.len() as int] == s[k + o.len()]);
        }
    }
}

}
