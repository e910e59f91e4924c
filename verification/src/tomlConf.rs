pub mod configStruct;
pub mod utils;
pub mod config;
