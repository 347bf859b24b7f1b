//! Glimbot's verified core: command and dice parsing, configuration validation,
//! caching, moderation bookkeeping and message dispatch decisions.

pub mod text;
pub mod error;
pub mod command;
pub mod dice;
pub mod pattern;
pub mod config;
pub mod sensitivity;
pub mod settings;
pub mod module_info;
pub mod cache;
pub mod dispatch;
pub mod filters;
pub mod roles;
pub mod reply;
pub mod incrementer;
pub mod bag;
pub mod timed;
pub mod moderation;
pub mod status;
pub mod conf_command;
pub mod dictionary;
pub mod kv;
pub mod info;
pub mod hooks;
pub mod glim;
pub mod config_cache;
pub mod glim_modules;
pub mod legacy_args;
pub mod legacy_roles;
