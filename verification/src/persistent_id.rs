//! Stable customer identity, independent of any engine entity handle.

use vstd::prelude::*;

verus! {

/// A stable, globally unique identifier for a customer, equal by value.
///
/// It is allocated once per customer at spawn time from a 128-bit ULID and
/// never changes afterwards; item ownership is tracked across transfers by
/// comparing these values.
#[derive(Clone, Copy, Debug, PartialEq, Eq, Structural)]
pub struct PersistentId {
    id: u128,
}

impl View for PersistentId {
    type V = u128;

    closed spec fn view(&self) -> u128 {
        self.id
    }
}

impl PersistentId {
    /// Relies on `ulid::Ulid::generate`: a fresh 128-bit ULID drawn from the
    /// current time and a random source. Nothing can be promised of its value.
    #[verifier::external_body]
    fn mint() -> u128 {
        ulid::Ulid::generate().0
    }

    /// A freshly allocated identifier. The value comes from a time-seeded
    /// random source, so nothing is stated about it.
    pub fn new() -> PersistentId {
        PersistentId { id: Self::mint() }
    }

    /// Wraps an identifier value that a collaborator already allocated.
    pub fn from_u128(id: u128) -> (r: PersistentId)
        ensures
            r@ == id,
    {
        PersistentId { id }
    }

    /// Two identifiers are equal exactly when their underlying values are.
    pub proof fn lemma_eq_by_value(a: PersistentId, b: PersistentId)
        ensures
            (a == b) <==> (a@ == b@),
    {
    }
}

} // verus!
