//! The mathematical model of the contract state and of each update to it.

use vstd::prelude::*;
use crate::address::{AccountAddress, Address, ContractAddress};
use crate::errors::ContractError;

verus! {

/// What the contract records for one address.
#[verifier::ext_equal]
pub struct AddressView {
    /// The tokens owned by this address.
    pub owned_tokens: Set<u32>,
    /// The addresses which are currently enabled as operators for this address.
    pub operators: Set<Address>,
}

/// The contract state.
#[verifier::ext_equal]
pub struct StateView {
    /// The record of each address that has one.
    pub state: Map<Address, AddressView>,
    /// All of the token IDs.
    pub all_tokens: Set<u32>,
    /// The metadata base URL stored for each token.
    pub token_metadata_urls: Map<u32, Seq<char>>,
    /// Contract addresses providing implementations of additional standards.
    pub implementors: Map<Seq<char>, Seq<ContractAddress>>,
    /// The next nonce of each account that has used a permit message.
    pub nonces_registry: Map<AccountAddress, u64>,
}

/// The record of an address that has none yet.
pub open spec fn empty_address_view() -> AddressView {
    AddressView { owned_tokens: Set::empty(), operators: Set::empty() }
}

impl StateView {
    /// A state with no tokens.
    pub open spec fn empty() -> StateView {
        StateView {
            state: Map::empty(),
            all_tokens: Set::empty(),
            token_metadata_urls: Map::empty(),
            implementors: Map::empty(),
            nonces_registry: Map::empty(),
        }
    }

    /// The record of `a`, or an empty one where there is none.
    pub open spec fn record(self, a: Address) -> AddressView {
        if self.state.contains_key(a) {
            self.state[a]
        } else {
            empty_address_view()
        }
    }

    /// Whether `a` owns `token`.
    pub open spec fn owns(self, a: Address, token: u32) -> bool {
        self.record(a).owned_tokens.contains(token)
    }

    /// The balance of `a` in `token`: one if it owns the token, else zero.
    pub open spec fn balance_of(self, token: u32, a: Address) -> u8 {
        if self.owns(a, token) {
            1
        } else {
            0
        }
    }

    /// Whether `address` is an operator of `owner`.
    pub open spec fn is_operator_of(self, address: Address, owner: Address) -> bool {
        self.record(owner).operators.contains(address)
    }

    /// Mint a new token with `owner` as its owner and `url` as its stored
    /// metadata URL.
    pub open spec fn mint(self, token: u32, owner: Address, url: Seq<char>) -> StateView {
        let r = self.record(owner);
        StateView {
            state: self.state.insert(
                owner,
                AddressView { owned_tokens: r.owned_tokens.insert(token), operators: r.operators },
            ),
            all_tokens: self.all_tokens.insert(token),
            token_metadata_urls: self.token_metadata_urls.insert(token, url),
            ..self
        }
    }

    /// Move `token` from `from` to `to`.
    pub open spec fn move_token(self, token: u32, from: Address, to: Address) -> StateView {
        let rf = self.record(from);
        let s1 = self.state.insert(
            from,
            AddressView { owned_tokens: rf.owned_tokens.remove(token), operators: rf.operators },
        );
        let rt = if s1.contains_key(to) {
            s1[to]
        } else {
            empty_address_view()
        };
        StateView {
            state: s1.insert(
                to,
                AddressView { owned_tokens: rt.owned_tokens.insert(token), operators: rt.operators },
            ),
            ..self
        }
    }

    /// The outcome of a transfer of `amount` of `token` from `from`.
    pub open spec fn transfer_result(self, token: u32, amount: u8, from: Address) -> Result<
        (),
        ContractError,
    > {
        if !self.all_tokens.contains(token) {
            Err(ContractError::InvalidTokenId)
        } else if amount == 0 {
            Ok(())
        } else if amount != 1 {
            Err(ContractError::InsufficientFunds)
        } else if !self.owns(from, token) {
            Err(ContractError::InsufficientFunds)
        } else {
            Ok(())
        }
    }

    /// The state after a transfer of `amount` of `token` from `from` to `to`.
    pub open spec fn transfer(self, token: u32, amount: u8, from: Address, to: Address) -> StateView {
        if self.transfer_result(token, amount, from) is Ok && amount == 1 {
            self.move_token(token, from, to)
        } else {
            self
        }
    }

    /// Add `operator` as an operator of `owner`.
    pub open spec fn add_operator(self, owner: Address, operator: Address) -> StateView {
        let r = self.record(owner);
        StateView {
            state: self.state.insert(
                owner,
                AddressView { owned_tokens: r.owned_tokens, operators: r.operators.insert(operator) },
            ),
            ..self
        }
    }

    /// Remove `operator` as an operator of `owner`; an address without a
    /// record keeps none.
    pub open spec fn remove_operator(self, owner: Address, operator: Address) -> StateView {
        if self.state.contains_key(owner) {
            let r = self.state[owner];
            StateView {
                state: self.state.insert(
                    owner,
                    AddressView {
                        owned_tokens: r.owned_tokens,
                        operators: r.operators.remove(operator),
                    },
                ),
                ..self
            }
        } else {
            self
        }
    }

    /// Set the implementors of the standard `id`.
    pub open spec fn set_implementors(self, id: Seq<char>, implementors: Seq<ContractAddress>) -> StateView {
        StateView { implementors: self.implementors.insert(id, implementors), ..self }
    }

    /// The nonce that the next permit message of `account` must carry.
    pub open spec fn next_nonce(self, account: AccountAddress) -> u64 {
        if self.nonces_registry.contains_key(account) {
            self.nonces_registry[account]
        } else {
            0
        }
    }

    /// Record that `account` used its current nonce: the next one is one
    /// higher, wrapping around at the largest `u64`.
    pub open spec fn use_nonce(self, account: AccountAddress) -> StateView {
        let n = self.next_nonce(account);
        StateView {
            nonces_registry: self.nonces_registry.insert(
                account,
                if n == u64::MAX {
                    0
                } else {
                    (n + 1) as u64
                },
            ),
            ..self
        }
    }

    /// The invariant of the token bookkeeping: every owned token exists,
    /// every token has an owner and no token has two, and the tokens are those
    /// with a metadata URL.
    pub open spec fn valid(self) -> bool {
        &&& forall|t: u32|
            #[trigger] self.all_tokens.contains(t) ==> exists|a: Address|
                self.state.contains_key(a) && #[trigger] self.state[a].owned_tokens.contains(t)
        &&& forall|a: Address, t: u32|
            self.state.contains_key(a) && #[trigger] self.state[a].owned_tokens.contains(t)
                ==> self.all_tokens.contains(t)
        &&& forall|a: Address, b: Address, t: u32|
            self.state.contains_key(a) && self.state.contains_key(b)
                && #[trigger] self.state[a].owned_tokens.contains(t)
                && #[trigger] self.state[b].owned_tokens.contains(t) ==> a == b
        &&& self.token_metadata_urls.dom() == self.all_tokens
    }
}

} // verus!
