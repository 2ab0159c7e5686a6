//! The preprocessing source for shared randomness: Beaver triples, shared
//! bits and shared values.  Each call returns this party's share only; the
//! joint invariant (for a triple, that the reconstructed c equals a·b) is
//! the source's to maintain and appears as a precondition of the protocol
//! steps that consume the material.

use crate::curve::{scalar_from_u64, scalar_val};
use crate::modular::in_field;
use curve25519_dalek::scalar::Scalar;
use vstd::prelude::*;

verus! {

/// A source of preprocessed shared values.  Implementations are stateful
/// and accessed by one operation at a time; each call consumes material.
pub trait SharedValueSource {
    /// This party's share of a shared random bit.
    fn next_shared_bit(&mut self) -> (r: Scalar)
        ensures
            in_field(scalar_val(r)),
    ;

    /// This party's share of a shared random value.
    fn next_shared_value(&mut self) -> (r: Scalar)
        ensures
            in_field(scalar_val(r)),
    ;

    /// This party's shares (a, b, c) of a Beaver triple whose joint values
    /// satisfy c = a·b.
    fn next_triplet(&mut self) -> (r: (Scalar, Scalar, Scalar))
        ensures
            in_field(scalar_val(r.0)),
            in_field(scalar_val(r.1)),
            in_field(scalar_val(r.2)),
    ;

    /// This party's shares of a pair (a, a⁻¹).
    fn next_shared_inverse_pair(&mut self) -> (r: (Scalar, Scalar))
        ensures
            in_field(scalar_val(r.0)),
            in_field(scalar_val(r.1)),
    ;
}

/// A deterministic test source that splits fixed material statically
/// between the parties: the triple a = 2, b = 3, c = 6 is shared as
/// \[a\] = (1, 1), \[b\] = (3, 0), \[c\] = (2, 4).
pub struct PartyIDBeaverSource {
    party_id: u64,
}

impl PartyIDBeaverSource {
    pub closed spec fn party(self) -> int {
        self.party_id as int
    }

    pub fn new(party_id: u64) -> (r: Self)
        requires
            party_id < 2,
        ensures
            r.party() == party_id as int,
    {
        Self { party_id }
    }

    /// The fixed triple shares: (1, 3, 2) for the king, (1, 0, 4) for the
    /// peer; jointly a = 2, b = 3, c = 6 = a·b.
    pub fn triplet(&self) -> (r: (Scalar, Scalar, Scalar))
        ensures
            self.party() == 0 ==> scalar_val(r.0) == 1 && scalar_val(r.1) == 3 && scalar_val(r.2)
                == 2,
            self.party() != 0 ==> scalar_val(r.0) == 1 && scalar_val(r.1) == 0 && scalar_val(r.2)
                == 4,
            in_field(scalar_val(r.0)),
            in_field(scalar_val(r.1)),
            in_field(scalar_val(r.2)),
    {
        if self.party_id == 0 {
            (scalar_from_u64(1), scalar_from_u64(3), scalar_from_u64(2))
        } else {
            (scalar_from_u64(1), scalar_from_u64(0), scalar_from_u64(4))
        }
    }
}

impl SharedValueSource for PartyIDBeaverSource {
    /// This party's share of a bit: simply the party id.
    fn next_shared_bit(&mut self) -> (r: Scalar) {
        scalar_from_u64(self.party_id)
    }

    fn next_shared_value(&mut self) -> (r: Scalar) {
        scalar_from_u64(self.party_id)
    }

    fn next_triplet(&mut self) -> (r: (Scalar, Scalar, Scalar)) {
        self.triplet()
    }

    fn next_shared_inverse_pair(&mut self) -> (r: (Scalar, Scalar)) {
        (scalar_from_u64(1), scalar_from_u64(1))
    }
}

} // verus!
