//! An agent that answers questions about a basketball warehouse: the guard in
//! front of the database, the tools that the model may call, the turns of a
//! conversation, and what the server decides at its edge.
pub mod agent;
pub mod chat;
pub mod db;
pub mod insights;
pub mod json;
pub mod limit;
pub mod model;
pub mod prompt;
pub mod schema;
pub mod sql;
pub mod text;
pub mod tool_catalog;
pub mod tool_reply;
pub mod tool_sql;
pub mod tools;
pub mod turn;
pub mod web;

pub use limit::RateLimiter;
pub use web::ApiAuth;
pub use web::AppState;
pub use web::TestQueryResponse;
pub use web::build_state;
