# NBA database agent

A server that answers questions about NBA statistics: a language model calls
analysis tools, the tools query a read-only DuckDB warehouse, and the answers
go out over HTTP. Everything that decides or computes is a Verus library with
contracts; what reads files, sockets and the database is ordinary Rust around it.

## Layout

`src/` is the verified library.

| Module | What it holds |
| --- | --- |
| `text`, `json` | texts and JSON values, and the models that contracts speak of |
| `sql` | which SQL may run, what an engine error means, how a misspelt column is mended |
| `db` | the query desk: counting, caching, capping, history, feedback |
| `schema`, `prompt` | what is asked of the catalogue, and the schema in words |
| `insights` | the figures on the cards |
| `tools`, `tool_sql`, `tool_reply`, `tool_catalog` | the tools: their plans, their SQL, their results, and how the model is told of them |
| `chat`, `agent`, `turn` | messages, sessions and reports, and the course of a turn |
| `model` | in what order models are tried, and what their replies mean |
| `limit`, `web` | the rate limiter, and the rules of the HTTP interface |

Functions named `law_*` state what holds across several operations, for example
that a refused query never runs, that a rate limit is never exceeded within any
window, or that a quoted literal reads back as it was.

`tests/` runs the library with the crates that it calls. `app/` is the server:
DuckDB, HTTP, the model's endpoint, and the session file.

## How app and library meet

The library never waits. A query starts with `DbContext::run_sql`, which refuses
it, answers it from the cache, or hands out a `PendingQuery`; the reply of the
database goes back through `finish_sql`. A turn starts with
`Agent::run_conversation` or `run_conversation_stream`; `Turn` then says whether
the model is to be asked or which tool is to run, takes the outcome, and says
what to tell the listener, until `close_turn` or `close_stream` stores the
session.
