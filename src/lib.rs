//! Watches the registration state of a PBX's SIP endpoints: parses the
//! endpoint listing of the status command, fingerprints it, and decides
//! when a change is to be announced.

pub mod config;
pub mod fingerprint;
pub mod snapshot;
pub mod text;
pub mod watch;
