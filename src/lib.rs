//! Post storage core: metadata rows, write-once content, keyword and tag
//! search, and cursor pagination, with the rules around them.

pub mod config;
pub mod content;
pub mod models;
pub mod repositories;
pub mod service;
pub mod text;
pub mod tokenizer;
pub mod util;
