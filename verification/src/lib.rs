//! Decision logic of an email-to-chain relay: what a transfer request says,
//! whether it is funded, which calldata a proof yields, and in which order the
//! steps of one request may happen.

pub mod calldata;
pub mod field;
pub mod json;
pub mod text;
pub mod intent;
pub mod email;
pub mod request;
pub mod validator;
pub mod submitter;
pub mod watcher;
pub mod coordinator;
