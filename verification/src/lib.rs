pub mod account;
pub mod candidates;
pub mod change_map;
pub mod cluster;
pub mod decimal;
pub mod grouping;
pub mod laws;
pub mod parser_trait;
pub mod queue_entry;
pub mod relevance;
pub mod resolver;
pub mod simple_parser;
pub mod token_accounts;
pub mod token_parser;
pub mod transaction;
pub mod types;

pub use queue_entry::QueueEntry;
pub use relevance::SmartAccountRedisClient;
