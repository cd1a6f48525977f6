//! The rules of a CTF platform: who signs in, what challenges show and take, what counts as a solve,
//! and how the site is configured and administered.

pub mod access;
pub mod account_events;
pub mod admin_rules;
pub mod administration;
pub mod allocation;
pub mod allowlist;
pub mod attempt;
pub mod auth;
pub mod authoring;
pub mod bootstrap;
pub mod catalog;
pub mod challenge_view;
pub mod comparison;
pub mod config;
pub mod config_changes;
pub mod configuration;
pub mod content;
pub mod create_idempotency;
pub mod crypto;
pub mod domains;
pub mod error;
pub mod exports;
pub mod fences;
pub mod fields;
pub mod files;
pub mod flag_policy;
pub mod json;
pub mod mail;
pub mod mailboxes;
pub mod moment;
pub mod numbers;
pub mod object_storage;
pub mod pages;
pub mod passwords;
pub mod product;
pub mod rate_limit;
pub mod regexes;
pub mod register;
pub mod registration;
pub mod response;
pub mod scoring;
pub mod settings;
pub mod settings_table;
pub mod text;
pub mod text_map;
pub mod urls;
pub mod uuids;
