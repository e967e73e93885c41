pub mod analysis;
pub mod apps;
pub mod builder;
pub mod common;
pub mod compile_db;
pub mod config;
pub mod dep;
pub mod error;
pub mod flow;
pub mod ir;
pub mod logging;
pub mod path;
pub mod proxy;
pub mod text;
pub mod wllvm;
pub mod workflow;
