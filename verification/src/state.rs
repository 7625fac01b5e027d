//! The contract state and the functions that create, update and query it.

use vstd::prelude::*;
use crate::address::{AccountAddress, Address, ContractAddress};
use crate::collections::{ListMap, ListSet, keys_of, lists_exactly};
use crate::errors::{ContractError, CustomContractError};
use crate::model::{AddressView, StateView, empty_address_view};
use crate::types::{SupportResult, ViewAddressState, ViewState};
use crate::snapshot::{map_of, record_of, record_pairs, implementor_pairs, restored, url_pairs, view_describes};

verus! {

/// The state for each address.
pub struct AddressState {
    /// The tokens owned by this address.
    pub owned_tokens: ListSet<u32>,
    /// The addresses which are currently enabled as operators for this address.
    pub operators: ListSet<Address>,
}

impl View for AddressState {
    type V = AddressView;

    open spec fn view(&self) -> AddressView {
        AddressView { owned_tokens: self.owned_tokens@, operators: self.operators@ }
    }
}

impl AddressState {
    pub open spec fn wf(&self) -> bool {
        self.owned_tokens.wf() && self.operators.wf()
    }

    /// The state of an address that owns nothing and has no operators.
    pub fn empty() -> (r: Self)
        ensures
            r.wf(),
            r@ == empty_address_view(),
    {
        let r = AddressState { owned_tokens: ListSet::new(), operators: ListSet::new() };
        assert(r@ =~= empty_address_view());
        r
    }
}

/// The contract state.
pub struct State {
    /// The state for each address.
    state: ListMap<Address, AddressState>,
    /// All of the token IDs.
    all_tokens: ListSet<u32>,
    /// The metadata base URL of each token.
    token_metadata_urls: ListMap<u32, String>,
    /// Map with contract addresses providing implementations of additional
    /// standards.
    implementors: ListMap<String, Vec<ContractAddress>>,
    /// A registry to link an account to its next nonce. The nonce is used to
    /// prevent replay attacks of the signed message.
    nonces_registry: ListMap<AccountAddress, u64>,
}

impl View for State {
    type V = StateView;

    closed spec fn view(&self) -> StateView {
        StateView {
            state: self.state@,
            all_tokens: self.all_tokens@,
            token_metadata_urls: self.token_metadata_urls@,
            implementors: self.implementors@,
            nonces_registry: self.nonces_registry@,
        }
    }
}

impl State {
    /// The storage keeps each key once and every address record is itself
    /// well formed.
    pub closed spec fn wf(&self) -> bool {
        &&& self.state.wf()
        &&& forall|j: int|
            0 <= j < self.state.entries@.len() ==> (#[trigger] self.state.entries@[j]).1.wf()
        &&& self.all_tokens.wf()
        &&& self.token_metadata_urls.wf()
        &&& self.implementors.wf()
        &&& self.nonces_registry.wf()
    }

    /// Creates a new state with no tokens.
    pub fn empty() -> (r: Self)
        ensures
            r.wf(),
            r@ == StateView::empty(),
    {
        let r = State {
            state: ListMap::new(),
            all_tokens: ListSet::new(),
            token_metadata_urls: ListMap::new(),
            implementors: ListMap::new(),
            nonces_registry: ListMap::new(),
        };
        assert(r@ =~= StateView::empty());
        r
    }

    /// Takes the record of `owner` out of the map, or an empty one.
    fn take_record(&mut self, owner: &Address) -> (r: AddressState)
        requires
            old(self).wf(),
        ensures
            r.wf(),
            r@ == old(self)@.record(*owner),
            final(self).state.wf(),
            forall|j: int|
                0 <= j < final(self).state.entries@.len() ==> (#[trigger] final(self).state.entries@[j]).1.wf(),
            final(self).state@ == old(self).state@.remove(*owner),
            final(self).all_tokens == old(self).all_tokens,
            final(self).token_metadata_urls == old(self).token_metadata_urls,
            final(self).implementors == old(self).implementors,
            final(self).nonces_registry == old(self).nonces_registry,
    {
        let ghost before = self.state;
        match self.state.remove(owner) {
            Some(st) => {
                proof {
                    let m = choose|m: int| 0 <= m < before.entries@.len() && before.entries@[m].1 == st;
                    assert(before.entries@[m].1.wf());
                }
                assert forall|j: int| 0 <= j < self.state.entries@.len() implies (#[trigger] self.state.entries@[j]).1.wf() by {
                    assert(before.stored(self.state.entries@[j]));
                    let m = choose|m: int| 0 <= m < before.entries@.len() && before.entries@[m] == self.state.entries@[j];
                    assert(before.entries@[m].1.wf());
                }
                st
            },
            None => {
                assert forall|j: int| 0 <= j < self.state.entries@.len() implies (#[trigger] self.state.entries@[j]).1.wf() by {
                    assert(before.stored(self.state.entries@[j]));
                    let m = choose|m: int| 0 <= m < before.entries@.len() && before.entries@[m] == self.state.entries@[j];
                    assert(before.entries@[m].1.wf());
                }
                AddressState::empty()
            },
        }
    }

    /// Puts the record of `owner` back into the map.
    fn put_record(&mut self, owner: Address, record: AddressState)
        requires
            old(self).state.wf(),
            forall|j: int|
                0 <= j < old(self).state.entries@.len() ==> (#[trigger] old(self).state.entries@[j]).1.wf(),
            old(self).all_tokens.wf(),
            old(self).token_metadata_urls.wf(),
            old(self).implementors.wf(),
            old(self).nonces_registry.wf(),
            record.wf(),
        ensures
            final(self).wf(),
            final(self).state@ == old(self).state@.insert(owner, record@),
            final(self).all_tokens == old(self).all_tokens,
            final(self).token_metadata_urls == old(self).token_metadata_urls,
            final(self).implementors == old(self).implementors,
            final(self).nonces_registry == old(self).nonces_registry,
    {
        let ghost before = self.state;
        let ghost rec = record;
        self.state.insert(owner, record);
        assert forall|j: int| 0 <= j < self.state.entries@.len() implies (#[trigger] self.state.entries@[j]).1.wf() by {
            if self.state.entries@[j] != (owner, rec) {
                assert(before.stored(self.state.entries@[j]));
                let m = choose|m: int| 0 <= m < before.entries@.len() && before.entries@[m] == self.state.entries@[j];
                assert(before.entries@[m].1.wf());
            }
        }
    }

    /// Mint a new token with a given address as the owner.
    pub fn mint(&mut self, token: u32, owner: &Address, metadata_url: String) -> (r: Result<(), ContractError>)
        requires
            old(self).wf(),
        ensures
            final(self).wf(),
            old(self)@.all_tokens.contains(token) ==> r == Err::<(), ContractError>(
                ContractError::Custom(CustomContractError::TokenIdAlreadyExists),
            ) && final(self)@ == old(self)@,
            !old(self)@.all_tokens.contains(token) ==> r == Ok::<(), ContractError>(())
                && final(self)@ == old(self)@.mint(token, *owner, metadata_url@),
    {
        if !self.all_tokens.insert(token) {
            assert(self@ =~= old(self)@);
            return Err(ContractError::Custom(CustomContractError::TokenIdAlreadyExists));
        }
        let mut owner_state = self.take_record(owner);
        owner_state.owned_tokens.insert(token);
        self.put_record(*owner, owner_state);
        self.token_metadata_urls.insert(token, metadata_url);
        assert(self@ =~= old(self)@.mint(token, *owner, metadata_url@));
        Ok(())
    }

    /// Check that the token ID currently exists in this contract.
    pub fn contains_token(&self, token_id: &u32) -> (r: bool)
        requires
            self.wf(),
        ensures
            r == self@.all_tokens.contains(*token_id),
    {
        self.all_tokens.contains(token_id)
    }

    /// Get the current balance of a given token ID for a given address.
    /// Results in an error if the token ID does not exist in the state.
    /// Since this contract only contains NFTs, the balance will always be
    /// either 1 or 0.
    pub fn balance(&self, token_id: &u32, address: &Address) -> (r: Result<u8, ContractError>)
        requires
            self.wf(),
        ensures
            r == (if self@.all_tokens.contains(*token_id) {
                Ok::<u8, ContractError>(self@.balance_of(*token_id, *address))
            } else {
                Err::<u8, ContractError>(ContractError::InvalidTokenId)
            }),
    {
        if !self.contains_token(token_id) {
            return Err(ContractError::InvalidTokenId);
        }
        let balance: u8 = match self.state.get(address) {
            Some(address_state) => if address_state.owned_tokens.contains(token_id) {
                1
            } else {
                0
            },
            None => 0,
        };
        Ok(balance)
    }

    /// Check if a given address is an operator of a given owner address.
    pub fn is_operator(&self, address: &Address, owner: &Address) -> (r: bool)
        requires
            self.wf(),
        ensures
            r == self@.is_operator_of(*address, *owner),
    {
        match self.state.get(owner) {
            Some(address_state) => address_state.operators.contains(address),
            None => false,
        }
    }
}

impl State {
    /// Update the state with a transfer of some token.
    /// Results in an error if the token ID does not exist in the state or if
    /// the from address have insufficient tokens to do the transfer.
    pub fn transfer(&mut self, token_id: &u32, amount: u8, from: &Address, to: &Address) -> (r: Result<
        (),
        ContractError,
    >)
        requires
            old(self).wf(),
        ensures
            final(self).wf(),
            r == old(self)@.transfer_result(*token_id, amount, *from),
            final(self)@ == old(self)@.transfer(*token_id, amount, *from, *to),
    {
        if !self.contains_token(token_id) {
            return Err(ContractError::InvalidTokenId);
        }
        // A zero transfer does not modify the state.
        if amount == 0 {
            return Ok(());
        }
        // Since this contract only contains NFTs, no one will have an amount
        // greater than 1.
        if amount != 1 {
            return Err(ContractError::InsufficientFunds);
        }
        if !self.state.contains_key(from) {
            return Err(ContractError::InsufficientFunds);
        }
        let mut from_state = self.take_record(from);
        // If nothing is removed, the address did not own the token.
        let from_had_the_token = from_state.owned_tokens.remove(token_id);
        self.put_record(*from, from_state);
        if !from_had_the_token {
            assert(self.state@[*from].owned_tokens =~= old(self)@.state[*from].owned_tokens);
            assert(self.state@[*from] =~= old(self)@.state[*from]);
            assert(self.state@ =~= old(self)@.state);
            assert(self@ =~= old(self)@);
            return Err(ContractError::InsufficientFunds);
        }
        // Add the token to the new owner.
        let mut to_state = self.take_record(to);
        to_state.owned_tokens.insert(*token_id);
        self.put_record(*to, to_state);
        assert(self@ =~= old(self)@.move_token(*token_id, *from, *to));
        Ok(())
    }

    /// Update the state adding a new operator for a given address.
    /// Succeeds even if the `operator` is already an operator for the
    /// `address`.
    pub fn add_operator(&mut self, owner: &Address, operator: &Address)
        requires
            old(self).wf(),
        ensures
            final(self).wf(),
            final(self)@ == old(self)@.add_operator(*owner, *operator),
    {
        let mut owner_state = self.take_record(owner);
        owner_state.operators.insert(*operator);
        self.put_record(*owner, owner_state);
        assert(self@ =~= old(self)@.add_operator(*owner, *operator));
    }

    /// Update the state removing an operator for a given address.
    /// Succeeds even if the `operator` is _not_ an operator for the `address`.
    pub fn remove_operator(&mut self, owner: &Address, operator: &Address)
        requires
            old(self).wf(),
        ensures
            final(self).wf(),
            final(self)@ == old(self)@.remove_operator(*owner, *operator),
    {
        if self.state.contains_key(owner) {
            let mut owner_state = self.take_record(owner);
            owner_state.operators.remove(operator);
            self.put_record(*owner, owner_state);
        }
        assert(self@ =~= old(self)@.remove_operator(*owner, *operator));
    }

    /// Check if state contains any implementors for a given standard.
    pub fn have_implementors(&self, std_id: &String) -> (r: SupportResult)
        requires
            self.wf(),
        ensures
            match r {
                SupportResult::SupportBy(v) => self@.implementors.contains_key(std_id@) && v@
                    == self@.implementors[std_id@],
                SupportResult::NoSupport => !self@.implementors.contains_key(std_id@),
                SupportResult::Support => false,
            },
    {
        match self.implementors.get(std_id) {
            Some(addresses) => SupportResult::SupportBy(copy_addresses(addresses)),
            None => SupportResult::NoSupport,
        }
    }

    /// Set implementors for a given standard.
    pub fn set_implementors(&mut self, std_id: String, implementors: Vec<ContractAddress>)
        requires
            old(self).wf(),
        ensures
            final(self).wf(),
            final(self)@ == old(self)@.set_implementors(std_id@, implementors@),
    {
        let ghost id = std_id@;
        let ghost v = implementors@;
        self.implementors.insert(std_id, implementors);
        assert(self@ =~= old(self)@.set_implementors(id, v));
    }

    /// The metadata base URL stored for a token, if any.
    pub fn token_metadata_url(&self, token_id: &u32) -> (r: Option<&String>)
        requires
            self.wf(),
        ensures
            match r {
                Some(url) => self@.token_metadata_urls.contains_key(*token_id) && url@
                    == self@.token_metadata_urls[*token_id],
                None => !self@.token_metadata_urls.contains_key(*token_id),
            },
    {
        self.token_metadata_urls.get(token_id)
    }

    /// The nonce that the next permit message of `account` must carry.
    pub fn next_nonce(&self, account: &AccountAddress) -> (r: u64)
        requires
            self.wf(),
        ensures
            r == self@.next_nonce(*account),
    {
        match self.nonces_registry.get(account) {
            Some(n) => *n,
            None => 0,
        }
    }

    /// Hand out the nonce that the next permit message of `account` must
    /// carry and advance the registry past it.
    pub fn use_nonce(&mut self, account: &AccountAddress) -> (r: u64)
        requires
            old(self).wf(),
        ensures
            final(self).wf(),
            r == old(self)@.next_nonce(*account),
            final(self)@ == old(self)@.use_nonce(*account),
    {
        let nonce: u64 = match self.nonces_registry.get(account) {
            Some(n) => *n,
            None => 0,
        };
        self.nonces_registry.insert(*account, nonce.wrapping_add(1));
        assert(self@ =~= old(self)@.use_nonce(*account));
        nonce
    }
}

/// View function that returns the entire contents of the state: each
/// address with its tokens and operators, all tokens, the nonce registry,
/// the implementors and the metadata base URL of each token, every entry
/// once, in storage order.
pub fn contract_view(state: &State) -> (r: ViewState)
    requires
        state.wf(),
    ensures
        view_describes(r, state@),
{
    let mut inner_state: Vec<(Address, ViewAddressState)> = Vec::new();
    let mut i: usize = 0;
    while i < state.state.entries.len()
        invariant
            state.wf(),
            0 <= i <= state.state.entries@.len(),
            inner_state@.len() == i,
            forall|j: int|
                0 <= j < i ==> {
                    &&& (#[trigger] inner_state@[j]).0 == state.state.entries@[j].0
                    &&& lists_exactly(inner_state@[j].1.owned_tokens@, state.state.entries@[j].1@.owned_tokens)
                    &&& lists_exactly(inner_state@[j].1.operators@, state.state.entries@[j].1@.operators)
                },
        decreases state.state.entries@.len() - i,
    {
        let e = &state.state.entries[i];
        assert(state.state.entries@[i as int].1.wf());
        let owned_tokens = e.1.owned_tokens.to_vec();
        let operators = e.1.operators.to_vec();
        inner_state.push((e.0, ViewAddressState { owned_tokens, operators }));
        i = i + 1;
    }
    proof {
        let keys = keys_of(inner_state@);
        assert forall|j: int| 0 <= j < keys.len() implies state@.state.contains_key(#[trigger] keys[j]@) && state@.state[keys[j]] == state.state.entries@[j].1@ by {
            state.state.lemma_entry(j);
        }
        assert forall|k: Address| state@.state.dom().contains(k) implies exists|j: int| 0 <= j < keys.len() && #[trigger] keys[j]@ == k by {
            state.state.lemma_key_stored(k);
            let j = choose|j: int| 0 <= j < state.state.entries@.len() && #[trigger] state.state.entries@[j].0@ == k;
            assert(keys[j]@ == k);
        }
        assert forall|a: int, b: int| 0 <= a < b < keys.len() implies keys[a]@ != keys[b]@ by {
            assert(state.state.entries@[a].0@ != state.state.entries@[b].0@);
        }
        assert forall|j: int| 0 <= j < inner_state@.len() implies {
            &&& lists_exactly((#[trigger] inner_state@[j]).1.owned_tokens@, state@.state[inner_state@[j].0].owned_tokens)
            &&& lists_exactly(inner_state@[j].1.operators@, state@.state[inner_state@[j].0].operators)
        } by {
            state.state.lemma_entry(j);
        }
    }

    let all_tokens = state.all_tokens.to_vec();

    let mut nonces_registry: Vec<(AccountAddress, u64)> = Vec::new();
    let mut i: usize = 0;
    while i < state.nonces_registry.entries.len()
        invariant
            state.wf(),
            0 <= i <= state.nonces_registry.entries@.len(),
            nonces_registry@.len() == i,
            forall|j: int| 0 <= j < i ==> #[trigger] nonces_registry@[j] == state.nonces_registry.entries@[j],
        decreases state.nonces_registry.entries@.len() - i,
    {
        let e = &state.nonces_registry.entries[i];
        nonces_registry.push((e.0, e.1));
        i = i + 1;
    }
    proof {
        let keys = keys_of(nonces_registry@);
        assert forall|j: int| 0 <= j < keys.len() implies state@.nonces_registry.contains_key(#[trigger] keys[j]@) by {
            state.nonces_registry.lemma_entry(j);
        }
        assert forall|k: AccountAddress| state@.nonces_registry.dom().contains(k) implies exists|j: int| 0 <= j < keys.len() && #[trigger] keys[j]@ == k by {
            state.nonces_registry.lemma_key_stored(k);
            let j = choose|j: int| 0 <= j < state.nonces_registry.entries@.len() && #[trigger] state.nonces_registry.entries@[j].0@ == k;
            assert(keys[j]@ == k);
        }
        assert forall|a: int, b: int| 0 <= a < b < keys.len() implies keys[a]@ != keys[b]@ by {
            assert(state.nonces_registry.entries@[a].0@ != state.nonces_registry.entries@[b].0@);
        }
        assert forall|j: int| 0 <= j < nonces_registry@.len() implies (#[trigger] nonces_registry@[j]).1
            == state@.nonces_registry[nonces_registry@[j].0] by {
            state.nonces_registry.lemma_entry(j);
        }
    }

    let mut implementors: Vec<(String, Vec<ContractAddress>)> = Vec::new();
    let mut i: usize = 0;
    while i < state.implementors.entries.len()
        invariant
            state.wf(),
            0 <= i <= state.implementors.entries@.len(),
            implementors@.len() == i,
            forall|j: int|
                0 <= j < i ==> (#[trigger] implementors@[j]).0@ == state.implementors.entries@[j].0@
                    && implementors@[j].1@ == state.implementors.entries@[j].1@,
        decreases state.implementors.entries@.len() - i,
    {
        let e = &state.implementors.entries[i];
        implementors.push((e.0.clone(), copy_addresses(&e.1)));
        i = i + 1;
    }
    proof {
        let keys = keys_of(implementors@);
        assert forall|j: int| 0 <= j < keys.len() implies state@.implementors.contains_key(#[trigger] keys[j]@) by {
            state.implementors.lemma_entry(j);
        }
        assert forall|k: Seq<char>| state@.implementors.dom().contains(k) implies exists|j: int| 0 <= j < keys.len() && #[trigger] keys[j]@ == k by {
            state.implementors.lemma_key_stored(k);
            let j = choose|j: int| 0 <= j < state.implementors.entries@.len() && #[trigger] state.implementors.entries@[j].0@ == k;
            assert(keys[j]@ == k);
        }
        assert forall|a: int, b: int| 0 <= a < b < keys.len() implies keys[a]@ != keys[b]@ by {
            assert(state.implementors.entries@[a].0@ != state.implementors.entries@[b].0@);
        }
        assert forall|j: int| 0 <= j < implementors@.len() implies (#[trigger] implementors@[j]).1@
            == state@.implementors[implementors@[j].0@] by {
            state.implementors.lemma_entry(j);
        }
    }

    let mut urls: Vec<(u32, String)> = Vec::new();
    let mut i: usize = 0;
    while i < state.token_metadata_urls.entries.len()
        invariant
            state.wf(),
            0 <= i <= state.token_metadata_urls.entries@.len(),
            urls@.len() == i,
            forall|j: int|
                0 <= j < i ==> (#[trigger] urls@[j]).0 == state.token_metadata_urls.entries@[j].0
                    && urls@[j].1@ == state.token_metadata_urls.entries@[j].1@,
        decreases state.token_metadata_urls.entries@.len() - i,
    {
        let e = &state.token_metadata_urls.entries[i];
        urls.push((e.0, e.1.clone()));
        i = i + 1;
    }
    proof {
        let keys = keys_of(urls@);
        assert forall|j: int| 0 <= j < keys.len() implies state@.token_metadata_urls.contains_key(#[trigger] keys[j]@) by {
            state.token_metadata_urls.lemma_entry(j);
        }
        assert forall|k: u32| state@.token_metadata_urls.dom().contains(k) implies exists|j: int| 0 <= j < keys.len() && #[trigger] keys[j]@ == k by {
            state.token_metadata_urls.lemma_key_stored(k);
            let j = choose|j: int| 0 <= j < state.token_metadata_urls.entries@.len() && #[trigger] state.token_metadata_urls.entries@[j].0@ == k;
            assert(keys[j]@ == k);
        }
        assert forall|a: int, b: int| 0 <= a < b < keys.len() implies keys[a]@ != keys[b]@ by {
            assert(state.token_metadata_urls.entries@[a].0@ != state.token_metadata_urls.entries@[b].0@);
        }
        assert forall|j: int| 0 <= j < urls@.len() implies (#[trigger] urls@[j]).1@
            == state@.token_metadata_urls[urls@[j].0] by {
            state.token_metadata_urls.lemma_entry(j);
        }
    }
    ViewState { state: inner_state, all_tokens, nonces_registry, implementors, token_metadata_urls: urls }
}

impl State {
    /// Reads back a state written out by `contract_view`; a later entry for
    /// the same key replaces an earlier one.
    pub fn restore(snap: &ViewState) -> (r: State)
        ensures
            r.wf(),
            r@ == restored(*snap),
    {
        let mut st = State::empty();
        let records = &snap.state;
        let mut i: usize = 0;
        while i < records.len()
            invariant
                st.wf(),
                records == &snap.state,
                0 <= i <= records@.len(),
                st@.state == map_of(record_pairs(records@.take(i as int))),
                st@.all_tokens == Set::<u32>::empty(),
                st@.token_metadata_urls == Map::<u32, Seq<char>>::empty(),
                st@.implementors == Map::<Seq<char>, Seq<ContractAddress>>::empty(),
                st@.nonces_registry == Map::<AccountAddress, u64>::empty(),
            decreases records@.len() - i,
        {
            let e = &records[i];
            let record = AddressState {
                owned_tokens: ListSet::from_vec(&e.1.owned_tokens),
                operators: ListSet::from_vec(&e.1.operators),
            };
            st.put_record(e.0, record);
            proof {
                let b = record_pairs(records@.take(i + 1));
                assert(b.drop_last() =~= record_pairs(records@.take(i as int)));
                assert(b.last() == (e.0, record_of(e.1)));
                assert(st@.state =~= map_of(b));
            }
            i = i + 1;
        }
        assert(records@.take(records@.len() as int) =~= records@);
        st.all_tokens = ListSet::from_vec(&snap.all_tokens);

        let urls = &snap.token_metadata_urls;
        let mut i: usize = 0;
        while i < urls.len()
            invariant
                st.wf(),
                urls == &snap.token_metadata_urls,
                0 <= i <= urls@.len(),
                st@.state == map_of(record_pairs(snap.state@)),
                st@.all_tokens == crate::collections::views_of(snap.all_tokens@),
                st@.token_metadata_urls == map_of(url_pairs(urls@.take(i as int))),
                st@.implementors == Map::<Seq<char>, Seq<ContractAddress>>::empty(),
                st@.nonces_registry == Map::<AccountAddress, u64>::empty(),
            decreases urls@.len() - i,
        {
            let e = &urls[i];
            st.token_metadata_urls.insert(e.0, e.1.clone());
            proof {
                let b = url_pairs(urls@.take(i + 1));
                assert(b.drop_last() =~= url_pairs(urls@.take(i as int)));
                assert(st@.token_metadata_urls =~= map_of(b));
            }
            i = i + 1;
        }
        assert(urls@.take(urls@.len() as int) =~= urls@);

        let implementors = &snap.implementors;
        let mut i: usize = 0;
        while i < implementors.len()
            invariant
                st.wf(),
                implementors == &snap.implementors,
                0 <= i <= implementors@.len(),
                st@.state == map_of(record_pairs(snap.state@)),
                st@.all_tokens == crate::collections::views_of(snap.all_tokens@),
                st@.token_metadata_urls == map_of(url_pairs(snap.token_metadata_urls@)),
                st@.implementors == map_of(implementor_pairs(implementors@.take(i as int))),
                st@.nonces_registry == Map::<AccountAddress, u64>::empty(),
            decreases implementors@.len() - i,
        {
            let e = &implementors[i];
            st.implementors.insert(e.0.clone(), copy_addresses(&e.1));
            proof {
                let b = implementor_pairs(implementors@.take(i + 1));
                assert(b.drop_last() =~= implementor_pairs(implementors@.take(i as int)));
                assert(st@.implementors =~= map_of(b));
            }
            i = i + 1;
        }
        assert(implementors@.take(implementors@.len() as int) =~= implementors@);

        let nonces = &snap.nonces_registry;
        let mut i: usize = 0;
        while i < nonces.len()
            invariant
                st.wf(),
                nonces == &snap.nonces_registry,
                0 <= i <= nonces@.len(),
                st@.state == map_of(record_pairs(snap.state@)),
                st@.all_tokens == crate::collections::views_of(snap.all_tokens@),
                st@.token_metadata_urls == map_of(url_pairs(snap.token_metadata_urls@)),
                st@.implementors == map_of(implementor_pairs(snap.implementors@)),
                st@.nonces_registry == map_of(nonces@.take(i as int)),
            decreases nonces@.len() - i,
        {
            let e = &nonces[i];
            st.nonces_registry.insert(e.0, e.1);
            proof {
                let b = nonces@.take(i + 1);
                assert(b.drop_last() =~= nonces@.take(i as int));
                assert(st@.nonces_registry =~= map_of(b));
            }
            i = i + 1;
        }
        assert(nonces@.take(nonces@.len() as int) =~= nonces@);
        assert(st@ =~= restored(*snap));
        st
    }
}

/// A copy of a list of contract addresses.
pub fn copy_addresses(v: &Vec<ContractAddress>) -> (r: Vec<ContractAddress>)
    ensures
        r@ == v@,
{
    let mut r: Vec<ContractAddress> = Vec::new();
    let mut i: usize = 0;
    while i < v.len()
        invariant
            0 <= i <= v@.len(),
            r@ == v@.subrange(0, i as int),
        decreases v@.len() - i,
    {
        r.push(v[i]);
        i = i + 1;
        assert(r@ =~= v@.subrange(0, i as int));
    }
    assert(r@ =~= v@);
    r
}

} // verus!
