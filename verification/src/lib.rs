//! Core of a client for the Spotify access-point wire protocol: a
//! Diffie-Hellman key exchange authenticated by an RSA signature over a pinned
//! server key, followed by an HMAC-SHA1 key schedule that turns the exchanged
//! transcript into a challenge and a pair of stream keys.
pub mod bytes;
pub mod consts;
pub mod crypto;
pub mod dh;
pub mod handshake;
pub mod http;
pub mod keys;
pub mod proto;
