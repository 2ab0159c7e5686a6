//! The error taxonomy surfaced to callers of the engine.

use vstd::prelude::*;

verus! {

/// Failures of the wire transport between the two parties.  The pure
/// protocol steps in this crate never produce one; the surrounding
/// transport reports them through this type.
#[derive(Clone, Copy, PartialEq, Eq, Structural, Debug)]
pub enum MpcNetworkError {
    SendError,
    RecvError,
    ConnectionSetupError,
    NetworkUninitialized,
}

/// Errors surfaced to callers of the MPC engine.
#[derive(Clone, Copy, PartialEq, Eq, Structural, Debug)]
pub enum MpcError {
    /// A transport failure, surfaced as-is.
    NetworkError(MpcNetworkError),
    /// An operation was invoked on a value of the wrong visibility,
    /// e.g. opening a Private value; a programmer bug.
    VisibilityError,
    /// A commit-and-open mismatch or a MAC-check failure: the peer
    /// deviated from the protocol, and the session must be torn down.
    AuthenticationError,
    /// An invalid Ristretto encoding was met on decompression.
    SerializationError,
    /// A malformed arithmetic request, e.g. a multiscalar multiplication
    /// over empty inputs.
    ArithmeticError,
}

} // verus!
