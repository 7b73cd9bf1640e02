//! Fixed-size byte strings: hashes and addresses.

use vstd::prelude::*;

verus! {

/// A 32-byte word, such as a hash or a storage root.
#[derive(Clone, Copy, Debug)]
pub struct B256 {
    pub bytes: [u8; 32],
}

/// A 20-byte account address.
#[derive(Clone, Copy, Debug)]
pub struct Address {
    pub bytes: [u8; 20],
}

impl View for B256 {
    type V = Seq<u8>;

    open spec fn view(&self) -> Seq<u8> {
        self.bytes@
    }
}

impl View for Address {
    type V = Seq<u8>;

    open spec fn view(&self) -> Seq<u8> {
        self.bytes@
    }
}

/// Whether two arrays hold the same bytes.
fn same_bytes<const N: usize>(a: &[u8; N], b: &[u8; N]) -> (r: bool)
    ensures
        r == (*a == *b),
{
    for i in 0..N
        invariant
            forall|j: int| 0 <= j < i ==> a[j] == b[j],
    {
        if a[i] != b[i] {
            return false;
        }
    }
    assert(*a =~= *b);
    true
}

impl PartialEq for B256 {
    fn eq(&self, other: &Self) -> (r: bool) {
        same_bytes(&self.bytes, &other.bytes)
    }
}

impl vstd::std_specs::cmp::PartialEqSpecImpl for B256 {
    open spec fn obeys_eq_spec() -> bool {
        true
    }

    open spec fn eq_spec(&self, other: &Self) -> bool {
        *self == *other
    }
}

impl Eq for B256 {

}

impl PartialEq for Address {
    fn eq(&self, other: &Self) -> (r: bool) {
        same_bytes(&self.bytes, &other.bytes)
    }
}

impl vstd::std_specs::cmp::PartialEqSpecImpl for Address {
    open spec fn obeys_eq_spec() -> bool {
        true
    }

    open spec fn eq_spec(&self, other: &Self) -> bool {
        *self == *other
    }
}

impl Eq for Address {

}

impl B256 {
    /// Two words with the same bytes are the same word.
    pub proof fn same_view(a: B256, b: B256)
        ensures
            a@ == b@ ==> a == b,
    {
        if a@ == b@ {
            assert(a.bytes =~= b.bytes);
        }
    }

    /// The word of 32 zero bytes.
    pub fn zero() -> (r: B256)
        ensures
            r.is_zero(),
    {
        B256 { bytes: [0u8; 32] }
    }

    pub open spec fn is_zero(self) -> bool {
        forall|i: int| 0 <= i < 32 ==> self@[i] == 0
    }

    /// Whether this is the zero word.
    pub fn is_zero_word(&self) -> (r: bool)
        ensures
            r == self.is_zero(),
    {
        let zero = B256::zero();
        proof {
            if self.is_zero() {
                B256::zero_is_unique(*self, zero);
            }
        }
        *self == zero
    }

    /// There is one zero word.
    pub proof fn zero_is_unique(a: B256, b: B256)
        requires
            a.is_zero(),
            b.is_zero(),
        ensures
            a == b,
    {
        assert(a@ =~= b@);
        B256::same_view(a, b);
    }
}

impl Address {
    /// Two addresses with the same bytes are the same address.
    pub proof fn same_view(a: Address, b: Address)
        ensures
            a@ == b@ ==> a == b,
    {
        if a@ == b@ {
            assert(a.bytes =~= b.bytes);
        }
    }

    pub open spec fn is_zero(self) -> bool {
        forall|i: int| 0 <= i < 20 ==> self@[i] == 0
    }

    /// The address of 20 zero bytes.
    pub fn zero() -> (r: Address)
        ensures
            r.is_zero(),
    {
        Address { bytes: [0u8; 20] }
    }

    /// There is one zero address.
    pub proof fn zero_is_unique(a: Address, b: Address)
        requires
            a.is_zero(),
            b.is_zero(),
        ensures
            a == b,
    {
        assert(a@ =~= b@);
        Address::same_view(a, b);
    }

    /// Whether this is the zero address.
    pub fn is_zero_address(&self) -> (r: bool)
        ensures
            r == self.is_zero(),
    {
        let zero = Address::zero();
        proof {
            if self.is_zero() {
                Address::zero_is_unique(*self, zero);
            }
        }
        *self == zero
    }
}

} // verus!
