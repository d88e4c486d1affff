//! Verified core of the DataRace realtime data engine: return codes, name
//! hashing and handles, web handle encoding, value containers, dashboard
//! specifications, the event registry, configuration decisions and plugin
//! bookkeeping.
#![allow(unused_imports)]

pub mod codes;
pub mod text;
pub mod hashing;
pub mod handles;
pub mod decimal;
pub mod web_handle;
pub mod values;
pub mod dashboard;
pub mod events;
pub mod config;
pub mod loader;
pub mod registry;
pub mod api;
pub mod plugin_api;
pub mod web_updater;
pub mod web;
pub mod dashboard_js;
pub mod page;
pub mod pages;
