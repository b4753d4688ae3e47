//! Homework deadline aggregation: the data model, the per-platform decision
//! logic, and the text formats of the configuration and cache files.

pub mod text;
pub mod json;
pub mod time;
pub mod models;
pub mod pending;
pub mod config;
pub mod paths;
pub mod log;
pub mod ketangpai;
pub mod yuketang;
pub mod html;
pub mod chaoxing;
pub mod cache;
pub mod fetch;
pub mod report;
pub mod qr;
