pub mod five_second_strategy;
pub mod strategy_trait;
