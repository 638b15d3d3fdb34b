pub mod background;
pub mod chunker;
pub mod config;
pub mod database;
pub mod extractor;
pub mod filter;
pub mod icons;
pub mod hash;
pub mod indexer;
pub mod query;
pub mod results;
pub mod scanner;
pub mod scheduler;
pub mod semantic;
pub mod status;
pub mod text;
pub mod watcher;
