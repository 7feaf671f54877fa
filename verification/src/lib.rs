pub mod kernel;
pub mod registry;
pub mod bands;
pub mod grid;
pub mod rules;
pub mod backtest;
pub mod positions;
pub mod condor;
pub mod channel;
pub mod domain;
pub mod strategies;
pub mod live;
pub mod market_data;
pub mod data_config;
pub mod ib_client;
