//! The visibility algebra: the lattice Private < Shared < Public and its
//! min-combination rule.  Every value in the MPC engine carries a visibility,
//! and every binary operator derives its result's visibility from its
//! operands' by taking the minimum in this order.

use vstd::prelude::*;

verus! {

/// How much information the parties hold about a value.
///
/// - `Private`: known only to this party; the peer holds no corresponding
///   share.  The input form before sharing.
/// - `Shared`: each party holds one additive share; neither alone knows the
///   value.
/// - `Public`: both parties hold the identical plaintext value.
#[derive(Clone, Copy, PartialEq, Eq, Structural, Debug)]
pub enum Visibility {
    Private,
    Shared,
    Public,
}

impl Visibility {
    /// Position of a visibility in the total order Private(0) < Shared(1) < Public(2).
    pub open spec fn level(self) -> int {
        match self {
            Visibility::Private => 0,
            Visibility::Shared => 1,
            Visibility::Public => 2,
        }
    }

    /// The minimum of two visibilities: a Private operand taints the result
    /// as Private; Shared absorbs Public.
    pub open spec fn spec_min(a: Visibility, b: Visibility) -> Visibility {
        if a.level() <= b.level() {
            a
        } else {
            b
        }
    }

    /// The minimum visibility among a sequence; Public when the sequence is
    /// empty (the identity of the min operation).
    pub open spec fn spec_min_seq(vs: Seq<Visibility>) -> Visibility
        decreases vs.len(),
    {
        if vs.len() == 0 {
            Visibility::Public
        } else {
            Visibility::spec_min(vs[0], Visibility::spec_min_seq(vs.skip(1)))
        }
    }

    /// Combine two operand visibilities into the result's visibility.
    pub fn min_visibility_two(a: Visibility, b: Visibility) -> (r: Visibility)
        ensures
            r == Visibility::spec_min(a, b),
    {
        match (a, b) {
            (Visibility::Private, _) => Visibility::Private,
            (_, Visibility::Private) => Visibility::Private,
            (Visibility::Shared, _) => Visibility::Shared,
            (_, Visibility::Shared) => Visibility::Shared,
            _ => Visibility::Public,
        }
    }

    /// The minimum visibility among a slice of visibilities.
    pub fn min_visibility(vs: &Vec<Visibility>) -> (r: Visibility)
        ensures
            r == Visibility::spec_min_seq(vs@),
    {
        let mut r = Visibility::Public;
        let mut i: usize = vs.len();
        while i > 0
            invariant
                i <= vs.len(),
                r == Visibility::spec_min_seq(vs@.skip(i as int)),
            decreases i,
        {
            i = i - 1;
            proof {
                assert(vs@.skip(i as int).skip(1) =~= vs@.skip(i as int + 1));
            }
            r = Visibility::min_visibility_two(vs[i], r);
        }
        proof {
            assert(vs@.skip(0) =~= vs@);
        }
        r
    }

    pub fn is_public(self) -> (r: bool)
        ensures
            r == (self == Visibility::Public),
    {
        match self {
            Visibility::Public => true,
            _ => false,
        }
    }

    pub fn is_shared(self) -> (r: bool)
        ensures
            r == (self == Visibility::Shared),
    {
        match self {
            Visibility::Shared => true,
            _ => false,
        }
    }

    pub fn is_private(self) -> (r: bool)
        ensures
            r == (self == Visibility::Private),
    {
        match self {
            Visibility::Private => true,
            _ => false,
        }
    }
}

} // verus!
