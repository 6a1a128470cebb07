//! Agile Inc.: the shared document model, configuration, prompt builders,
//! executor post-processing, audit views and the decision logic of the
//! product-owner, developer and QA agents.

pub mod text;
pub mod json;
pub mod types;
pub mod config;
pub mod prompts;
pub mod runner;
pub mod audit;
pub mod agent;
pub mod dev;
pub mod qa;
pub mod po;
