pub mod manager;
pub mod transcript_director;
pub mod transcript_strategy;
pub mod worker;
