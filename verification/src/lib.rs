//! Client-side offline handshake of a RakNet-style session protocol:
//! a byte-exact binary codec, a closed packet model, and the pure
//! decision logic of the connect/ping flows.

pub mod datatype;
pub mod error;
pub mod packet;
pub mod socket;
