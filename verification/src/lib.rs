//! rpx: deploying ML models to serverless GPUs and serving them behind one
//! OpenAI-compatible gateway. This library holds the decisions: engine and
//! GPU choice, deployment plans, the lifecycle of fleet models, API keys,
//! rate limits and spend, routing, and the requests exchanged with RunPod.
//! The command line and the HTTP servers around it are in `app/`.
pub mod backend;
pub mod catalog;
pub mod cli;
pub mod config;
pub mod deploy;
pub mod external;
pub mod fleet;
pub mod gateway;
pub mod json;
pub mod model;
pub mod orchestrator;
pub mod provider;
pub mod proxy;
pub mod text;
pub mod ui;
