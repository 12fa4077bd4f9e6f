//! The verified core of a web file manager that serves one directory tree.
#![allow(unused_imports)]

pub mod text;
pub mod problem;
pub mod response;
pub mod identifiers;
pub mod operation_registry;
pub mod paths;
pub mod internal_names;
pub mod uri;
pub mod path_policy;
pub mod path_coordinator;
pub mod app_error;
pub mod io_error;
pub mod steps;
pub mod rooted_fs;
pub mod listing;
pub mod revision;
pub mod auth;
pub mod args;
pub mod server;
pub mod browser_api;
pub mod http_utils;
pub mod delete;
pub mod download;
pub mod assets;
pub mod administrator_web;
pub mod listening;
pub mod request_context;
