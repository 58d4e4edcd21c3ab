//! The module orchestration core of a shell daemon that hosts dynamically
//! loaded UI modules.
//!
//! - `config`, `yaml`: configuration snapshots, read from YAML text.
//! - `reconcile`, `reload`: the difference between two configurations and
//!   the per-module steps that carry it out.
//! - `module`: module records and plugin discovery.
//! - `orbit`: the registry with its target, surface and timer indexes, and
//!   the lifecycle transitions (toggle, hide, unload, configuration push).
//! - `control`: the loop flag, control commands and event routing.
//! - `subscription`: timer subscriptions and their flattening.
//! - `watch`: the decisions of the configuration watcher and loader.
//! - `paths`: the layout of the configuration directory.
//! - `bar`, `wallpaper`: state of the built-in modules that the core handles.
use vstd::prelude::*;

pub mod bar;
pub mod config;
pub mod control;
pub mod module;
pub mod orbit;
pub mod paths;
pub mod reconcile;
pub mod reload;
pub mod subscription;
pub mod wallpaper;
pub mod watch;
pub mod yaml;

verus! {

} // verus!
