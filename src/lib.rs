//! A resumable, multi-segment download engine: the policy, planning and
//! bookkeeping decisions, each stated as a contract and proved.

pub mod error;
pub mod text;
pub mod model;
pub mod url;
pub mod planner;
pub mod pattern;
pub mod transport;
pub mod naming;
pub mod job;
pub mod store;
pub mod progress;
pub mod bandwidth;
pub mod engine;
pub mod update;
pub mod settings;
pub mod rules;
