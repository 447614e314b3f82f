//! Orchestration of sets of containerised projects that are grouped under a
//! named app: the layered configuration model with its merge, the selection
//! of the projects to work on, the reconciliation of declared and running
//! services, and the plans of commands by which an app is installed, brought
//! up and brought down. The library computes; reading files and running
//! commands is left to its caller.

pub mod cmd;
pub mod config;
pub mod docat;
pub mod docker;
pub mod file;
pub mod git;
pub mod selection;
pub mod service;
pub mod sorted_map;
pub mod text;
