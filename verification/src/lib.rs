//! A monitor for services that are reachable only through an anonymity-overlay
//! proxy: it reconciles the services of a directory with a registry on file,
//! classifies what a probe of each service found, and renders the report.
//!
//! The library holds the rules and leaves every effect to its caller. `run`
//! says, step by step, what is to be done next; the caller fetches, probes,
//! waits and writes, and reports what came of it.
//!
//! - `candidate`: entries of the directory and how they become records;
//! - `merge`, `merge_laws`: reconciling candidates with the registry;
//! - `probe`: the verdict on a probe and what it leaves in a record;
//! - `config`, `proxy`, `checker`: the configuration of a run, the proxy, and
//!   what the checker is told;
//! - `report`, `template`: the report and its fixed text;
//! - `run`: one run as a state machine;
//! - `site`, `timestamp`: records and instants;
//! - `text`, `numeral`, `position`: text, decimal numerals, places in sequences.

pub mod candidate;
pub mod checker;
pub mod config;
pub mod merge;
pub mod merge_laws;
pub mod numeral;
pub mod position;
pub mod probe;
pub mod proxy;
pub mod report;
pub mod run;
pub mod site;
pub mod template;
pub mod text;
pub mod timestamp;
