//! Identities: 32-byte keys of owners, assets, custody locations and records,
//! ordered lexicographically byte by byte.

use std::cmp::Ordering;
use vstd::prelude::*;

verus! {

/// `a` and `b` agree on every byte before `index` and differ at `index`.
pub open spec fn first_difference(a: Seq<u8>, b: Seq<u8>, index: int) -> bool {
    &&& 0 <= index < a.len()
    &&& index < b.len()
    &&& a[index] != b[index]
    &&& forall|j: int| 0 <= j < index ==> a[j] == b[j]
}

/// Lexicographic order on byte strings of one length: `a` comes strictly
/// before `b` when, at the first byte where they differ, `a` holds the
/// smaller one.
pub open spec fn lex_lt(a: Seq<u8>, b: Seq<u8>) -> bool {
    exists|index: int| #[trigger] first_difference(a, b, index) && a[index] < b[index]
}

/// A 32-byte identity.
#[derive(Clone, Copy, Debug, Eq, Ord, Hash)]
pub struct Address {
    pub bytes: [u8; 32],
}

impl View for Address {
    type V = Seq<u8>;

    open spec fn view(&self) -> Seq<u8> {
        self.bytes@
    }
}

impl Address {
    /// The all-zero identity, which stands for "not set".
    pub open spec fn zero() -> Address {
        Address { bytes: vstd::array::spec_array_fill_for_copy_type(0u8) }
    }

    /// The all-zero identity.
    pub fn zeroed() -> (address: Address)
        ensures
            address == Address::zero(),
    {
        Address { bytes: [0u8; 32] }
    }

    /// `self` comes strictly before `other` in lexicographic byte order.
    pub open spec fn precedes(self, other: Address) -> bool {
        lex_lt(self@, other@)
    }

    /// The identity that holds `bytes`.
    pub fn new_from_array(bytes: [u8; 32]) -> (address: Address)
        ensures
            address.bytes == bytes,
    {
        Address { bytes }
    }

    /// The bytes of the identity.
    pub fn to_bytes(&self) -> (bytes: [u8; 32])
        ensures
            bytes == self.bytes,
    {
        self.bytes
    }

    /// Whether `self` comes strictly before `other`.
    pub fn lt(&self, other: &Address) -> (less: bool)
        ensures
            less == self.precedes(*other),
    {
        let mut i: usize = 0;
        while i < 32
            invariant
                i <= 32,
                forall|j: int| 0 <= j < i ==> self.bytes[j] == other.bytes[j],
            decreases 32 - i,
        {
            if self.bytes[i] != other.bytes[i] {
                assert(first_difference(self@, other@, i as int));
                assert forall|index: int| #[trigger]
                    first_difference(self@, other@, index) implies index == i by {
                    if index < i {
                    } else if index > i {
                    }
                }
                return self.bytes[i] < other.bytes[i];
            }
            i += 1;
        }
        assert forall|index: int| !#[trigger] first_difference(self@, other@, index) by {}
        false
    }
}

impl PartialEq for Address {
    fn eq(&self, other: &Address) -> (equal: bool) {
        let mut i: usize = 0;
        while i < 32
            invariant
                i <= 32,
                forall|j: int| 0 <= j < i ==> self.bytes[j] == other.bytes[j],
            decreases 32 - i,
        {
            if self.bytes[i] != other.bytes[i] {
                return false;
            }
            i += 1;
        }
        assert(self.bytes =~= other.bytes);
        true
    }
}

impl vstd::std_specs::cmp::PartialEqSpecImpl for Address {
    open spec fn obeys_eq_spec() -> bool {
        true
    }

    open spec fn eq_spec(&self, other: &Address) -> bool {
        *self == *other
    }
}

impl PartialOrd for Address {
    fn partial_cmp(&self, other: &Address) -> (order: Option<Ordering>) {
        if self.lt(other) {
            Some(Ordering::Less)
        } else if other.lt(self) {
            Some(Ordering::Greater)
        } else {
            Some(Ordering::Equal)
        }
    }
}

impl vstd::std_specs::cmp::PartialOrdSpecImpl for Address {
    open spec fn obeys_partial_cmp_spec() -> bool {
        true
    }

    open spec fn partial_cmp_spec(&self, other: &Address) -> Option<Ordering> {
        if self.precedes(*other) {
            Some(Ordering::Less)
        } else if other.precedes(*self) {
            Some(Ordering::Greater)
        } else {
            Some(Ordering::Equal)
        }
    }
}

impl Default for Address {
    fn default() -> (address: Address)
        ensures
            address == Address::zero(),
    {
        Address::zeroed()
    }
}

/// Every byte of the all-zero identity is zero.
pub proof fn lemma_zero_bytes()
    ensures
        Address::zero()@.len() == 32,
        forall|i: int| 0 <= i < 32 ==> Address::zero()@[i] == 0,
{
    broadcast use vstd::array::group_array_axioms;

}

/// Two identities are equal exactly when they hold the same bytes.
pub proof fn lemma_address_by_bytes(a: Address, b: Address)
    ensures
        (a@ == b@) <==> (a == b),
{
    if a@ == b@ {
        assert forall|i: int| 0 <= i < 32 implies a.bytes[i] == b.bytes[i] by {
            assert(a@[i] == b@[i]);
        }
        assert(a.bytes =~= b.bytes);
    }
}

/// Of two different identities exactly one comes before the other, and no
/// identity comes before itself.
pub proof fn lemma_order_total(a: Address, b: Address)
    ensures
        a == b ==> !a.precedes(b) && !b.precedes(a),
        a != b ==> (a.precedes(b) <==> !b.precedes(a)),
{
    if a == b {
        assert forall|index: int| !#[trigger] first_difference(a@, b@, index) by {}
    } else {
        lemma_address_by_bytes(a, b);
        let index = lemma_first_difference_exists(a@, b@, 32);
        assert(first_difference(b@, a@, index));
        assert forall|other: int| #[trigger] first_difference(a@, b@, other) implies other
            == index by {
            if other < index {
            } else if other > index {
            }
        }
        assert forall|other: int| #[trigger] first_difference(b@, a@, other) implies other
            == index by {
            assert(first_difference(a@, b@, other));
        }
    }
}

/// Two byte strings of one length that differ have a first byte where they
/// differ.
proof fn lemma_first_difference_exists(a: Seq<u8>, b: Seq<u8>, len: nat) -> (index: int)
    requires
        a.len() == len,
        b.len() == len,
        a != b,
    ensures
        first_difference(a, b, index),
    decreases len,
{
    if len == 0 {
        assert(a =~= b);
        0
    } else if a.drop_last() == b.drop_last() {
        if a.last() == b.last() {
            assert(a =~= a.drop_last().push(a.last()));
            assert(b =~= b.drop_last().push(b.last()));
        }
        assert forall|j: int| 0 <= j < len - 1 implies a[j] == b[j] by {
            assert(a.drop_last()[j] == b.drop_last()[j]);
        }
        len - 1
    } else {
        let index = lemma_first_difference_exists(a.drop_last(), b.drop_last(), (len - 1) as nat);
        assert(a.drop_last()[index] == a[index]);
        assert(b.drop_last()[index] == b[index]);
        assert forall|j: int| 0 <= j < index implies a[j] == b[j] by {
            assert(a.drop_last()[j] == b.drop_last()[j]);
        }
        index
    }
}

} // verus!
