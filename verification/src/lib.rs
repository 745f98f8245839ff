pub mod engine;
pub mod text;
pub mod input;
pub mod filter;
pub mod codegen;
pub mod explain;
pub mod app;
pub mod config;
pub mod grex_integration;
pub mod recipe;
pub mod ui;
pub mod dispatch;
pub mod output;
