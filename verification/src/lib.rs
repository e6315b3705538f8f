//! Order management, normalization and bookkeeping for a Bluefin trading bot.
pub mod decimal;
pub mod text;
pub mod time;
pub mod order;
pub mod market_meta;
pub mod json;
pub mod balance;
pub mod error;
pub mod event;
pub mod fill;
pub mod intent;
pub mod plan;
pub mod exec;
pub mod normalize;
pub mod oms;
pub mod balance_manager;
pub mod history;
pub mod confirm;
pub mod redact;
pub mod api;
pub mod submission;
pub mod config;
pub mod auth;
pub mod sdk;
pub mod stream;
pub mod rest;
pub mod strategy;
