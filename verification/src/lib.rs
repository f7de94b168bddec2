//! Epik's domain core: plans of features, the builds that work them off, the
//! agents and models that do the work, and the forges and trackers it is
//! done against.

pub mod agent;
pub mod chat;
pub mod check;
pub mod config;
pub mod crossing;
pub mod event;
pub mod feature;
pub mod forge;
pub mod git;
pub mod github;
pub mod ids;
pub mod ipc;
pub mod job;
pub mod json;
pub mod keystore;
pub mod launch;
pub mod logging;
pub mod logs;
pub mod monitor;
pub mod preflight;
pub mod run;
pub mod text;
pub mod tools;
pub mod tree;
pub mod worker;
