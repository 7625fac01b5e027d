//! Addresses on the chain and the key comparison used by the library's
//! collections.

use vstd::prelude::*;

verus! {

/// An account address: the 32 bytes that name an account on the chain.
#[derive(Debug, PartialEq, Eq, Clone, Copy)]
pub struct AccountAddress(pub [u8; 32]);

/// A contract instance address.
#[derive(Debug, PartialEq, Eq, Clone, Copy)]
pub struct ContractAddress {
    pub index: u64,
    pub subindex: u64,
}

/// Either an account or a contract instance.
#[derive(Debug, PartialEq, Eq, Clone, Copy)]
pub enum Address {
    Account(AccountAddress),
    Contract(ContractAddress),
}

impl View for AccountAddress {
    type V = AccountAddress;

    open spec fn view(&self) -> AccountAddress {
        *self
    }
}

impl View for Address {
    type V = Address;

    open spec fn view(&self) -> Address {
        *self
    }
}

/// Keys of the library's collections: an exact equality test and a copy.
pub trait KeyEq: View + Sized {
    fn key_eq(&self, other: &Self) -> (r: bool)
        ensures
            r == (self@ == other@),
    ;

    fn key_clone(&self) -> (r: Self)
        ensures
            r@ == self@,
    ;
}

/// Byte-wise comparison of two account addresses.
pub fn same_account(a: &AccountAddress, b: &AccountAddress) -> (r: bool)
    ensures
        r == (*a == *b),
{
    broadcast use vstd::array::group_array_axioms;

    let mut i: usize = 0;
    while i < 32
        invariant
            0 <= i <= 32,
            forall|j: int| 0 <= j < i ==> a.0[j] == b.0[j],
        decreases 32 - i,
    {
        if a.0[i] != b.0[i] {
            return false;
        }
        i = i + 1;
    }
    assert(a.0 =~= b.0);
    true
}

/// Exact comparison of two addresses.
pub fn same_address(a: &Address, b: &Address) -> (r: bool)
    ensures
        r == (*a == *b),
{
    match (a, b) {
        (Address::Account(x), Address::Account(y)) => same_account(x, y),
        (Address::Contract(x), Address::Contract(y)) => x.index == y.index && x.subindex
            == y.subindex,
        _ => false,
    }
}

impl Address {
    /// Whether this address is the given account.
    pub fn matches_account(&self, acc: &AccountAddress) -> (r: bool)
        ensures
            r == (*self == Address::Account(*acc)),
    {
        match self {
            Address::Account(my_acc) => same_account(my_acc, acc),
            Address::Contract(_) => false,
        }
    }
}

impl KeyEq for u32 {
    fn key_eq(&self, other: &Self) -> (r: bool) {
        *self == *other
    }

    fn key_clone(&self) -> (r: Self) {
        *self
    }
}

impl KeyEq for AccountAddress {
    fn key_eq(&self, other: &Self) -> (r: bool) {
        same_account(self, other)
    }

    fn key_clone(&self) -> (r: Self) {
        *self
    }
}

impl KeyEq for Address {
    fn key_eq(&self, other: &Self) -> (r: bool) {
        same_address(self, other)
    }

    fn key_clone(&self) -> (r: Self) {
        *self
    }
}

impl KeyEq for String {
    fn key_eq(&self, other: &Self) -> (r: bool) {
        self.eq(other)
    }

    fn key_clone(&self) -> (r: Self) {
        self.clone()
    }
}

} // verus!
