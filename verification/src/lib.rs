//! Tamper-evident scenario auditing: a scenario language, an integrity
//! ledger over expert-authored files, and the bookkeeping of an audit run.

pub mod audit;
pub mod digest;
pub mod ledger;
pub mod lexis;
pub mod parser;
pub mod pathmap;
pub mod report;
pub mod run;
pub mod scenario;
pub mod text;
pub mod time;
pub mod writer;
