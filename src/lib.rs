//! Declarative GPIO pin configuration and the reconciliation of the
//! kernel's sysfs GPIO state with it.

pub mod config;
pub mod decimal;
pub mod decode;
pub mod merge;
pub mod toml_doc;
pub mod error;
pub mod export;
pub mod options;
