pub mod state;
pub mod token_bucket;

pub use token_bucket::TokenBucket;
