//! Tunnels: bidirectional mappings between two carriers over one base.
use vstd::prelude::*;

pub mod icmp_tcp;

verus! {

/// A carrier that can be taken out of a base value and put back into one.
pub trait Tunnelable<B> where Self: Sized {
    /// Whether the carrier can be put back into a base value.
    spec fn carriable(&self) -> bool;

    /// Whether the carrier can be put back into a base value.
    fn is_carriable(&self) -> (r: bool)
        ensures
            r == self.carriable(),
    ;

    /// The carrier in `base`, if `base` holds one.
    fn extract(base: B) -> Option<Self>;

    /// The base value that holds this carrier.
    fn embellish(self) -> B
        requires
            self.carriable(),
    ;
}

/// A bidirectional mapping between a plain carrier `P` and a meta carrier
/// `M` over a common base.
pub trait Tunnel<P, M> where P: Tunnelable<Self::Base>, M: Tunnelable<Self::Base> {
    type Base;

    /// Wraps a plain carrier into a meta carrier.
    fn encode(&mut self, p: P) -> M;

    /// Unwraps a meta carrier into a plain carrier.
    fn decode(&mut self, m: M) -> P;
}

} // verus!
