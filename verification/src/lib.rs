use vstd::prelude::*;

pub mod text;
pub mod diff;
pub mod intent;
pub mod research;
pub mod provider;
pub mod prompt;
pub mod capabilities;
pub mod planner;
pub mod completion;
pub mod decide;
pub mod hooks;
pub mod rules;
pub mod version;
pub mod feed;
pub mod connect;
pub mod review;
pub mod platform;
pub mod config;
pub mod mcp;
pub mod router;
pub mod tools;
pub mod memory;
pub mod cache;
pub mod agent;
pub mod profile;
pub mod stream;
pub mod docs;
pub mod registry;
pub mod versioner;
pub mod monitor;
pub mod fallback;
pub mod providers;
