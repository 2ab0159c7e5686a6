//! Two-party secure multi-party computation over the Ristretto prime-order
//! group derived from Curve25519.
//!
//! Two mutually distrusting parties jointly evaluate arithmetic circuits over
//! field scalars and group elements.  Values carry a visibility tag (Private,
//! Shared or Public); shared values are additive sharings whose two shares
//! reconstruct the value modulo the group order.  The engine implements
//! opening, commit-and-open, Beaver-triple multiplication, batched variants,
//! and MAC-authenticated values that detect a tampering peer.
//!
//! Every protocol step is written as a pure function of the party's local
//! state and the messages received from the peer; the wire transport itself
//! is out of scope.  The `two_party` module composes both parties' steps and
//! proves the joint protocol correct.

pub mod authenticated_ristretto;
pub mod authenticated_scalar;
pub mod beaver;
pub mod commitment;
pub mod curve;
pub mod error;
pub mod modular;
pub mod mpc_ristretto;
pub mod mpc_scalar;
pub mod two_party;
pub mod visibility;

pub use visibility::Visibility;
