//! The core of a browser driver that is hard to tell from a person: what is asked of the browser,
//! in what order, and what its answers mean.
//!
//! Nothing here touches the browser, a file or the network. An operation is a plan (see [`plan`])
//! that whoever holds the session performs; where an answer decides what comes next, a function
//! takes the answer and gives the next plan.

pub mod archive;
pub mod capabilities;
pub mod chance;
pub mod chrome;
pub mod commands;
pub mod config;
pub mod download;
pub mod driver;
pub mod encoding;
pub mod error;
pub mod json;
pub mod operation;
pub mod patch;
pub mod plan;
pub mod profile;
pub mod proxy;
pub mod scripts;
pub mod stealth;
pub mod text;
pub mod utils;
pub mod waiting;
