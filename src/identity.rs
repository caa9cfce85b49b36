use vstd::prelude::*;

verus! {

/// An opaque principal: a caller, a creator or a registered user, named by
/// its address text.
#[derive(Clone, Debug)]
pub struct Identity {
    pub address: String,
}

impl View for Identity {
    type V = Seq<char>;

    open spec fn view(&self) -> Seq<char> {
        self.address@
    }
}

impl Identity {
    pub fn new(address: String) -> (r: Identity)
        ensures
            r@ == address@,
    {
        Identity { address }
    }

    /// Whether both values name the same principal.
    pub fn same_as(&self, other: &Identity) -> (r: bool)
        ensures
            r == (self@ == other@),
    {
        self.address == other.address
    }

    pub fn duplicate(&self) -> (r: Identity)
        ensures
            r@ == self@,
    {
        Identity { address: self.address.clone() }
    }
}

} // verus!
