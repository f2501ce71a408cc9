//! Bookkeeping for locally issued connection identifiers of a transport
//! connection: issuance, expiry-driven retirement requests and the peer's
//! retirement notices.
pub mod cid_generator;
pub mod cid_state;
pub mod shared;

pub use cid_generator::{ConnectionIdGenerator, RandomConnectionIdGenerator};
pub use cid_state::{CidState, CidTimeStamp};
pub use shared::{ConnectionId, IssuedCid, TransportError, TransportErrorCode, MAX_CID_SIZE};
