//! Values shared by the identifier generator and the state tracker.
use vstd::prelude::*;

verus! {

/// Largest length, in bytes, of a connection identifier.
pub const MAX_CID_SIZE: usize = 20;

/// An opaque connection identifier of at most `MAX_CID_SIZE` bytes.
#[derive(Debug, Clone, PartialEq, Eq, Hash)]
pub struct ConnectionId {
    bytes: Vec<u8>,
}

impl View for ConnectionId {
    type V = Seq<u8>;

    closed spec fn view(&self) -> Seq<u8> {
        self.bytes@
    }
}

impl ConnectionId {
    /// Every identifier fits the protocol's maximum length.
    pub closed spec fn wf(&self) -> bool {
        self.bytes@.len() <= MAX_CID_SIZE
    }

    /// Builds an identifier holding a copy of `bytes`.
    pub fn new(bytes: &[u8]) -> (r: ConnectionId)
        requires
            bytes@.len() <= MAX_CID_SIZE,
        ensures
            r@ == bytes@,
            r.wf(),
    {
        let mut v: Vec<u8> = Vec::new();
        let mut i: usize = 0;
        while i < bytes.len()
            invariant
                i <= bytes@.len(),
                v@ == bytes@.subrange(0, i as int),
            decreases bytes@.len() - i,
        {
            v.push(bytes[i]);
            i += 1;
        }
        assert(v@ =~= bytes@);
        ConnectionId { bytes: v }
    }

    /// Number of bytes in the identifier.
    pub fn len(&self) -> (r: usize)
        ensures
            r == self@.len(),
    {
        self.bytes.len()
    }

    /// Whether the identifier holds no bytes.
    pub fn is_empty(&self) -> (r: bool)
        ensures
            r == (self@.len() == 0),
    {
        self.bytes.len() == 0
    }

    /// The identifier's bytes.
    pub fn as_bytes(&self) -> (r: &[u8])
        ensures
            r@ == self@,
    {
        self.bytes.as_slice()
    }
}

/// A locally generated identifier together with its sequence number.
#[derive(Debug, Clone, PartialEq, Eq)]
pub struct IssuedCid {
    pub sequence: u64,
    pub id: ConnectionId,
}

/// Kind of a connection-terminating error.
#[derive(Debug, Clone, Copy, PartialEq, Eq, Structural)]
pub enum TransportErrorCode {
    /// The peer broke the protocol's rules.
    ProtocolViolation,
}

/// A fatal error reported to the connection: its kind and a reason for humans.
#[derive(Debug, Clone, PartialEq, Eq)]
pub struct TransportError {
    pub code: TransportErrorCode,
    pub reason: String,
}

/// Whether `r` is a protocol violation with the given reason.
pub open spec fn is_protocol_violation<T>(r: Result<T, TransportError>, reason: Seq<char>) -> bool {
    match r {
        Err(e) => e.code == TransportErrorCode::ProtocolViolation && e.reason@ == reason,
        Ok(_) => false,
    }
}

impl TransportError {
    /// A protocol violation with the given reason.
    #[allow(non_snake_case)]
    pub fn PROTOCOL_VIOLATION(reason: &str) -> (r: TransportError)
        ensures
            r.code == TransportErrorCode::ProtocolViolation,
            r.reason@ == reason@,
    {
        TransportError { code: TransportErrorCode::ProtocolViolation, reason: reason.to_owned() }
    }
}

} // verus!
