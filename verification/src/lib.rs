//! The decision logic of a Kademlia record network.
//!
//! Everything that sockets, channels, clocks and files do stays with the caller. The modules
//! here take what those gave as plain values and say, with proofs, what happens next.

pub mod account;
pub mod address;
pub mod builder;
pub mod byte_strings;
pub mod cmd;
pub mod console;
pub mod content_name;
pub mod distance;
pub mod driver;
pub mod event_loop;
pub mod gutenberg;
pub mod home;
pub mod kadnode;
pub mod omni;
pub mod peer;
pub mod ping;
pub mod record_cfg;
pub mod statistics;
pub mod text;
pub mod throttle;
