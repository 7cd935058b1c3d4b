//! Service discovery for containers: keeps a DNS zone in step with the
//! containers that a runtime reports as running.

pub mod config;
pub mod env;
pub mod event;
pub mod frames;
pub mod inspect;
pub mod ip;
pub mod monitor;
pub mod names;
pub mod scope;
pub mod table;
pub mod text;
