use vstd::prelude::*;

verus! {

/// Number of bytes in an account or contract address.
pub const ADDRESS_LEN: usize = 32;

/// The all-zero address, as a byte sequence.
pub open spec fn zero_address() -> Seq<u8> {
    Seq::new(32, |i: int| 0u8)
}

/// A blockchain account address: 32 raw bytes.
#[derive(Clone, Copy, Debug, PartialEq, Eq)]
pub struct Address {
    pub bytes: [u8; 32],
}

impl View for Address {
    type V = Seq<u8>;

    open spec fn view(&self) -> Seq<u8> {
        self.bytes@
    }
}

impl Address {
    /// Builds an address from its 32 bytes.
    pub fn new(bytes: [u8; 32]) -> (r: Address)
        ensures
            r@ == bytes@,
    {
        Address { bytes }
    }

    /// The all-zero address.
    pub fn zero() -> (r: Address)
        ensures
            r@ == zero_address(),
    {
        let r = Address { bytes: [0u8; 32] };
        assert(r@ =~= zero_address());
        r
    }

    /// Byte-wise equality of two addresses.
    pub fn same_as(&self, other: &Address) -> (r: bool)
        ensures
            r == (self@ == other@),
    {
        let mut i: usize = 0;
        while i < ADDRESS_LEN
            invariant
                i <= 32,
                self@.len() == 32,
                other@.len() == 32,
                forall|j: int| 0 <= j < i ==> self@[j] == other@[j],
            decreases 32 - i,
        {
            if self.bytes[i] != other.bytes[i] {
                return false;
            }
            i = i + 1;
        }
        assert(self@ =~= other@);
        true
    }

    /// Whether every byte of the address is zero.
    pub fn is_zero(&self) -> (r: bool)
        ensures
            r == (self@ == zero_address()),
    {
        let mut i: usize = 0;
        while i < ADDRESS_LEN
            invariant
                i <= 32,
                self@.len() == 32,
                forall|j: int| 0 <= j < i ==> self@[j] == 0u8,
            decreases 32 - i,
        {
            if self.bytes[i] != 0 {
                assert(self@[i as int] != zero_address()[i as int]);
                return false;
            }
            i = i + 1;
        }
        assert(self@ =~= zero_address());
        true
    }
}

} // verus!
