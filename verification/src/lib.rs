//! Deployment logic for Ciao: ship an application to a host over SSH.

pub mod address;
pub mod audit;
pub mod calendar;
pub mod candidate;
pub mod cloudflare;
pub mod commands;
pub mod config;
pub mod deploy;
pub mod domain;
pub mod env;
pub mod envfile;
pub mod error;
pub mod funnel;
pub mod github;
pub mod hooks;
pub mod host;
pub mod json;
pub mod keys;
pub mod laws;
pub mod laws_audit;
pub mod laws_deploy;
pub mod laws_env;
pub mod laws_links;
pub mod laws_network;
pub mod laws_operations;
pub mod laws_projects;
pub mod laws_releases;
pub mod laws_requests;
pub mod laws_rollback;
pub mod laws_routes;
pub mod laws_sessions;
pub mod laws_stack;
pub mod laws_tools;
pub mod laws_transport;
pub mod laws_units;
pub mod laws_values;
pub mod laws_workstation;
pub mod links;
pub mod listing;
pub mod local;
pub mod local_run;
pub mod looking;
pub mod manifest;
pub mod mcp;
pub mod model;
pub mod named;
pub mod observe;
pub mod operations;
pub mod parts;
pub mod paths;
pub mod ports;
pub mod project;
pub mod redact;
pub mod release;
pub mod remote;
pub mod removal;
pub mod rollback;
pub mod running;
pub mod runtime_state;
pub mod services;
pub mod settings;
pub mod shell;
pub mod sorting;
pub mod steps;
pub mod tailscale;
pub mod tailscale_api;
pub mod tailscale_local;
pub mod text;
pub mod transaction;
pub mod transport;
pub mod tunnel;
pub mod validate;
pub mod workstation;
