//! The secure tunnel plane of a small hub-and-spoke layer-3 VPN.
//!
//! Peers and a central server authenticate each other with long-term Ed25519
//! keys, agree on a pair of ChaCha20-Poly1305 keys over two ephemeral P-384
//! exchanges, and carry IPv4 packets sealed under those keys inside UDP
//! datagrams. The server opens each packet with the session of its sender
//! and re-seals it for the destination peer.
//!
//! - `message`, `bytes`: the wire format of protocol messages.
//! - `nonce`: the strictly monotonic nonce sequence of a session.
//! - `crypto`: static identities, signed seeds, session keys, sealing.
//! - `ipv4`: the two address fields of an inner IPv4 header.
//! - `server`: the peer table and the server's forwarding decisions.
//! - `client`: the client's handshake and packet steps, and its defaults.
//! - `laws`: properties that relate several of the above.

pub mod bytes;
pub mod client;
pub mod crypto;
pub mod error;
pub mod ipv4;
pub mod laws;
pub mod message;
pub mod nonce;
pub mod server;
