//! Persistence rules of the database client: the settings document, the query
//! history rows, connection secrets and the saved SQL library.

pub mod json;
pub mod settings;
pub mod history;
pub mod secrets;
pub mod migration;
pub mod saved_sql;
pub mod retention;
