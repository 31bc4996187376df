//! Checks whether a set of working directories has unfinished business.

pub mod cli;
pub mod command;
pub mod config;
pub mod custom;
pub mod dir;
pub mod error;
pub mod fix;
pub mod git;
pub mod order;
pub mod pathset;
pub mod policy;
pub mod refresh;
pub mod repo;
pub mod scan;
pub mod text;
pub mod walk;
