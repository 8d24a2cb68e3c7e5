//! The `chacha20-poly1305@openssh.com` packet cipher of a secure-shell
//! transport, with its wire format stated and proved against *ring*.
//!
//! - [`cipher`]: the engine of one session, which seals, opens and peeks.
//! - [`wire`]: the format of a packet as spec functions, and the steps of
//!   sealing and opening that need no key.
//! - [`laws`]: what is proved of the format for every key, sequence number
//!   and packet.
//! - [`primitive`]: the calls into *ring*, with the contracts that are taken
//!   on trust.
//! - [`error`]: the one failure that opening reports.

pub mod cipher;
pub mod error;
pub mod laws;
pub mod primitive;
pub mod wire;

pub use cipher::ChaCha20Poly1305;
pub use error::AuthenticationFailure;
