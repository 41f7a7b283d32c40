//! The supervisor layer of a daemon that runs coding bots: what the manager and the responder are
//! told, what they hand out, who may decide, and when the daemon may be rebuilt or restarted.
//!
//! Everything here works on plain values. The tables are a `store::Store`; times are texts in RFC 3339
//! or `time::Instant`s; fresh ids are handed in by the caller.

pub mod approvals;
pub mod assignment_state;
pub mod assignments;
pub mod coalesce;
pub mod config;
pub mod evidence;
pub mod inbox;
pub mod incidents;
pub mod json;
pub mod leases;
pub mod maintenance;
pub mod migration;
pub mod notify;
pub mod owned;
pub mod persona;
pub mod policy;
pub mod refusal;
pub mod remote;
pub mod render;
pub mod responder;
pub mod reviews;
pub mod role_faults;
pub mod role_inbox;
pub mod roles;
pub mod rows;
pub mod setup;
pub mod store;
pub mod supervisor;
pub mod table;
pub mod text;
pub mod time;
pub mod timing;
pub mod watchdog;
