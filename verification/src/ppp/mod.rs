//! PPP over Ethernet: its configuration, the relay between the interface and
//! the session, and how a session is put into the packet path.
pub mod config;
pub mod relay;
pub mod setup;
