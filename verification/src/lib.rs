//! Task tracking, workflow and configuration logic for driving an agentic IDE
//! through its sidebar task list.

pub mod cli;
pub mod config;
pub mod filter;
pub mod text;
pub mod trae;
pub mod utils;
