pub mod filter;
pub mod ingest;
pub mod options;
pub mod query;
pub mod schema;
pub mod search;
pub mod text;
