//! Polling OAuth usage endpoints, verified.
//!
//! An account pool learns its accounts' rate limits from the responses it
//! proxies, and so sees only its own traffic. Usage endpoints report the whole
//! truth, and this library decides how to ask them and what to make of the
//! answers:
//!
//! - [`json`] holds documents as plain values, parsed by `serde_json`;
//! - [`usage`] builds the `wham/usage` request and reads its answer, with
//!   [`binary64`] for shares, [`rfc3339`] for resets and [`snapshot`] for the
//!   result; [`usage_laws`] and [`rfc3339_laws`] say what holds of every answer
//!   and of every timestamp;
//! - [`credentials`] tells which accounts can be polled;
//! - [`account_poll`] is the poll of one account, and [`pass`] the pass over all
//!   of them, each a machine whose driver performs the I/O; [`pass_laws`] says
//!   what every step of a pass does and what a whole pass polls;
//! - [`quota`] is what a noted snapshot changes, and [`pool_laws`] says what is
//!   known after a whole pass;
//! - [`schedule`] is whether the poller runs and how often.

pub mod account_poll;
pub mod binary64;
pub mod credentials;
pub mod json;
pub mod pass;
pub mod pass_laws;
pub mod pool_laws;
pub mod quota;
pub mod rfc3339;
pub mod rfc3339_laws;
pub mod schedule;
pub mod snapshot;
pub mod usage;
pub mod usage_laws;
