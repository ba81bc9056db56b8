//! Control-plane client for a fleet of remote build and deploy agents.
//!
//! The library holds the logic of the client: endpoint normalisation, the
//! request each agent operation sends, response validation, parsing of the
//! tabular listings that agents return, liveness reduction, and the staged
//! deployment state machine. Sending requests is left to the caller, which
//! hands the outcomes back as plain values.
pub mod text;
pub mod client;
pub mod deploy;
pub mod laws;
pub mod assoc;
pub mod record;
pub mod table;
pub mod liveness;
