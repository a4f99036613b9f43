pub mod agent_context;
pub mod agent_tools;
pub mod config;
pub mod dag_run_result;
pub mod error;
pub mod graph;
pub mod graph_readback;
pub mod graph_store;
pub mod json;
pub mod model;
pub mod queries;
pub mod text;
pub mod transcripts;
pub mod tasks;
