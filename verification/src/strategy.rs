pub mod StrategyFactory;
