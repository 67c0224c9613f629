//! Client-side login negotiation for a federated chat protocol.
//!
//! The library discovers which authentication methods a homeserver offers,
//! resolves ambiguity when several are offered, decides how an authenticator
//! reacts to each outcome, and assembles and encodes the session record that
//! lets a later run skip the login flow.  All network and terminal I/O lives
//! outside the library; every function here is pure and verified.

pub mod auth;
pub mod choices;
pub mod codec;
pub mod digits;
pub mod discovery;
pub mod errors;
pub mod persister;
pub mod resolver;
pub mod session;
pub mod text;
