//! PXE boot helper: a cooperative DHCP participant that listens to the
//! broadcast DHCPv4 handshake and repeats the authoritative server's answers
//! with boot information added, without handing out addresses itself.
//!
//! - [`dhcp`]: the state machine over DISCOVER, OFFER, REQUEST, ACK and
//!   DECLINE, the sessions it tracks, and the reaper that ages them out.
//! - [`conf`]: the configuration and the matcher that chooses boot
//!   parameters for a client; [`yaml_conf`] reads it from YAML.
//! - [`util`]: the bounded map that holds the sessions.
//! - [`wire`], [`doc`], [`yaml`]: what the library relies on from the DHCP
//!   codec, the JSON and regular expression crates, and the YAML parser.
//! - [`options`]: the look at a datagram's options that comes before the
//!   codec.
//! - [`net`], [`text`]: addresses and text as plain values.
//! - [`cli`], [`tftp`]: the log level of the command line, and the modes
//!   and the path rule of the TFTP directory handler.

pub mod cli;
pub mod conf;
pub mod dhcp;
pub mod doc;
pub mod net;
pub mod options;
pub mod text;
pub mod tftp;
pub mod util;
pub mod wire;
pub mod yaml;
pub mod yaml_conf;
