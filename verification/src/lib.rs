pub mod order;
pub mod engine;
pub mod codec;
pub mod schema;
pub mod db_iterator;
pub mod database;
pub mod laws;
pub mod prelude;
