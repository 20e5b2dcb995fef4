pub mod config;
pub mod fetcher;
pub mod filter;
pub mod game;
pub mod igdb;
pub mod metacritic;
pub mod metadata;
pub mod pagination;
pub mod scheduler;
pub mod stats;
pub mod steam;
pub mod store;
pub mod text;
pub mod token;
