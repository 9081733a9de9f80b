//! Skill package management: reference parsing, source classification,
//! version arithmetic, manifest checks, and the decisions of the install and
//! publish pipelines. Every I/O step is left to the caller.

pub mod api;
pub mod commands;
mod disk;
pub mod git;
pub mod install;
pub mod manifest;
pub mod materialize;
pub mod names;
pub mod publish;
pub mod reference;
pub mod skill_file;
pub mod source;
pub mod text;
pub mod version;
