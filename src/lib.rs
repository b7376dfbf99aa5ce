//! Orchestration engine of a periodic vulnerability audit: binary discovery,
//! splitting of the auditor's JSON object stream, the retry policy, the
//! report model and the bounded fan-out of report delivery.
pub mod text;
pub mod split;
pub mod report;
pub mod audit;
pub mod retry;
pub mod config;
pub mod dispatch;
