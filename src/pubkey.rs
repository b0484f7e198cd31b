use vstd::prelude::*;

verus! {

/// A 32-byte account identity, held as four little-endian 64-bit words.
#[derive(Clone, Copy, Debug, PartialEq, Eq, Structural)]
pub struct Pubkey(pub u64, pub u64, pub u64, pub u64);

impl View for Pubkey {
    type V = Pubkey;

    open spec fn view(&self) -> Pubkey {
        *self
    }
}

impl Pubkey {
    /// The all-zero identity, which stands for "not configured".
    pub open spec fn spec_default() -> Pubkey {
        Pubkey(0, 0, 0, 0)
    }

    pub fn new(w0: u64, w1: u64, w2: u64, w3: u64) -> (r: Pubkey)
        ensures
            r == Pubkey(w0, w1, w2, w3),
    {
        Pubkey(w0, w1, w2, w3)
    }

    pub fn is_default(&self) -> (r: bool)
        ensures
            r == (*self == Pubkey::spec_default()),
    {
        self.0 == 0 && self.1 == 0 && self.2 == 0 && self.3 == 0
    }
}

impl Default for Pubkey {
    fn default() -> (r: Pubkey)
        ensures
            r == Pubkey::spec_default(),
    {
        Pubkey(0, 0, 0, 0)
    }
}

} // verus!
