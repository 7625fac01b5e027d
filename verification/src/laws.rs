//! Properties of the token bookkeeping that hold across operations.

use vstd::prelude::*;
use crate::address::{AccountAddress, Address, ContractAddress};
use crate::contract::{
    apply_update, apply_updates, authorize_result, may_transfer, permit_check, permit_plan_outcome, permit_support_answers,
    support_answer, PermitPlan,
};
use crate::errors::CheckAccountSignatureError;
use crate::payload::transfer_payload;
use crate::errors::{ContractError, CustomContractError};
use crate::metadata::is_supported_standard;
use crate::model::StateView;
use crate::types::{OperatorUpdate, PermitAction, PermitMessage, SupportResult, UpdateOperator};

verus! {

/// A state with no tokens satisfies the bookkeeping invariant.
pub proof fn lemma_empty_valid()
    ensures
        StateView::empty().valid(),
{
    assert(StateView::empty().token_metadata_urls.dom() =~= StateView::empty().all_tokens);
}

/// Minting a token that does not exist yet keeps the invariant.
pub proof fn lemma_mint_keeps_valid(s: StateView, token: u32, owner: Address, url: Seq<char>)
    requires
        s.valid(),
        !s.all_tokens.contains(token),
    ensures
        s.mint(token, owner, url).valid(),
{
    let t = s.mint(token, owner, url);
    assert forall|a: Address, b: Address, x: u32|
        t.state.contains_key(a) && t.state.contains_key(b) && #[trigger] t.state[a].owned_tokens.contains(x)
            && #[trigger] t.state[b].owned_tokens.contains(x) implies a == b by {
        if x == token {
            if a != owner {
                assert(s.state[a].owned_tokens.contains(x));
            }
            if b != owner {
                assert(s.state[b].owned_tokens.contains(x));
            }
        } else {
            if a == owner && s.state.contains_key(owner) {
                assert(s.state[a].owned_tokens.contains(x));
            }
            if b == owner && s.state.contains_key(owner) {
                assert(s.state[b].owned_tokens.contains(x));
            }
        }
    }
    assert forall|a: Address, x: u32|
        t.state.contains_key(a) && #[trigger] t.state[a].owned_tokens.contains(x) implies t.all_tokens.contains(x) by {
        if x != token && a == owner && s.state.contains_key(owner) {
            assert(s.state[a].owned_tokens.contains(x));
        }
    }
    assert forall|x: u32| #[trigger] t.all_tokens.contains(x) implies exists|a: Address|
        t.state.contains_key(a) && #[trigger] t.state[a].owned_tokens.contains(x) by {
        if x == token {
            assert(t.state[owner].owned_tokens.contains(x));
        } else {
            let a = choose|a: Address| s.state.contains_key(a) && #[trigger] s.state[a].owned_tokens.contains(x);
            assert(t.state[a].owned_tokens.contains(x));
        }
    }
    assert(t.token_metadata_urls.dom() =~= t.all_tokens);
}

/// A transfer of any amount keeps the invariant and the set of tokens.
pub proof fn lemma_transfer_keeps_valid(s: StateView, token: u32, amount: u8, from: Address, to: Address)
    requires
        s.valid(),
    ensures
        s.transfer(token, amount, from, to).valid(),
        s.transfer(token, amount, from, to).all_tokens == s.all_tokens,
        s.transfer(token, amount, from, to).token_metadata_urls == s.token_metadata_urls,
{
    if s.transfer_result(token, amount, from) is Ok && amount == 1 {
        let t = s.move_token(token, from, to);
        assert(s.state.contains_key(from));
        assert forall|a: Address, x: u32|
            t.state.contains_key(a) && #[trigger] t.state[a].owned_tokens.contains(x) implies t.all_tokens.contains(x) by {
            if x != token {
                assert(s.state.contains_key(a) && s.state[a].owned_tokens.contains(x));
            }
        }
        assert forall|a: Address, b: Address, x: u32|
            t.state.contains_key(a) && t.state.contains_key(b) && #[trigger] t.state[a].owned_tokens.contains(x)
                && #[trigger] t.state[b].owned_tokens.contains(x) implies a == b by {
            if x == token {
                if a != to {
                    assert(a != from);
                    assert(s.state[a].owned_tokens.contains(x));
                    assert(s.state[from].owned_tokens.contains(x));
                }
                if b != to {
                    assert(b != from);
                    assert(s.state[b].owned_tokens.contains(x));
                    assert(s.state[from].owned_tokens.contains(x));
                }
            } else {
                assert(s.state.contains_key(a) && s.state[a].owned_tokens.contains(x));
                assert(s.state.contains_key(b) && s.state[b].owned_tokens.contains(x));
            }
        }
        assert forall|x: u32| #[trigger] t.all_tokens.contains(x) implies exists|a: Address|
            t.state.contains_key(a) && #[trigger] t.state[a].owned_tokens.contains(x) by {
            if x == token {
                assert(t.state[to].owned_tokens.contains(x));
            } else {
                let a = choose|a: Address| s.state.contains_key(a) && #[trigger] s.state[a].owned_tokens.contains(x);
                assert(t.state[a].owned_tokens.contains(x));
            }
        }
    }
}

/// Adding an operator keeps the invariant.
pub proof fn lemma_add_operator_keeps_valid(s: StateView, owner: Address, operator: Address)
    requires
        s.valid(),
    ensures
        s.add_operator(owner, operator).valid(),
{
    let t = s.add_operator(owner, operator);
    assert forall|a: Address, x: u32|
        t.state.contains_key(a) && #[trigger] t.state[a].owned_tokens.contains(x) implies t.all_tokens.contains(x) by {
        assert(s.state.contains_key(a) && s.state[a].owned_tokens.contains(x));
    }
    assert forall|a: Address, b: Address, x: u32|
        t.state.contains_key(a) && t.state.contains_key(b) && #[trigger] t.state[a].owned_tokens.contains(x)
            && #[trigger] t.state[b].owned_tokens.contains(x) implies a == b by {
        assert(s.state.contains_key(a) && s.state[a].owned_tokens.contains(x));
        assert(s.state.contains_key(b) && s.state[b].owned_tokens.contains(x));
    }
    assert forall|x: u32| #[trigger] t.all_tokens.contains(x) implies exists|a: Address|
        t.state.contains_key(a) && #[trigger] t.state[a].owned_tokens.contains(x) by {
        let a = choose|a: Address| s.state.contains_key(a) && #[trigger] s.state[a].owned_tokens.contains(x);
        assert(t.state[a].owned_tokens.contains(x));
    }
}

/// Removing an operator keeps the invariant.
pub proof fn lemma_remove_operator_keeps_valid(s: StateView, owner: Address, operator: Address)
    requires
        s.valid(),
    ensures
        s.remove_operator(owner, operator).valid(),
{
    let t = s.remove_operator(owner, operator);
    assert forall|a: Address, x: u32|
        t.state.contains_key(a) && #[trigger] t.state[a].owned_tokens.contains(x) implies t.all_tokens.contains(x) by {
        assert(s.state.contains_key(a) && s.state[a].owned_tokens.contains(x));
    }
    assert forall|a: Address, b: Address, x: u32|
        t.state.contains_key(a) && t.state.contains_key(b) && #[trigger] t.state[a].owned_tokens.contains(x)
            && #[trigger] t.state[b].owned_tokens.contains(x) implies a == b by {
        assert(s.state.contains_key(a) && s.state[a].owned_tokens.contains(x));
        assert(s.state.contains_key(b) && s.state[b].owned_tokens.contains(x));
    }
    assert forall|x: u32| #[trigger] t.all_tokens.contains(x) implies exists|a: Address|
        t.state.contains_key(a) && #[trigger] t.state[a].owned_tokens.contains(x) by {
        let a = choose|a: Address| s.state.contains_key(a) && #[trigger] s.state[a].owned_tokens.contains(x);
        assert(t.state[a].owned_tokens.contains(x));
    }
}

/// Setting implementors and using a nonce leave the tokens alone.
pub proof fn lemma_registries_keep_valid(
    s: StateView,
    id: Seq<char>,
    implementors: Seq<ContractAddress>,
    account: AccountAddress,
)
    requires
        s.valid(),
    ensures
        s.set_implementors(id, implementors).valid(),
        s.use_nonce(account).valid(),
{
    assert forall|x: u32| #[trigger] s.all_tokens.contains(x) implies exists|a: Address|
        s.set_implementors(id, implementors).state.contains_key(a)
            && #[trigger] s.set_implementors(id, implementors).state[a].owned_tokens.contains(x) by {
        let a = choose|a: Address| s.state.contains_key(a) && #[trigger] s.state[a].owned_tokens.contains(x);
        assert(s.set_implementors(id, implementors).state[a].owned_tokens.contains(x));
    }
    assert forall|x: u32| #[trigger] s.all_tokens.contains(x) implies exists|a: Address|
        s.use_nonce(account).state.contains_key(a) && #[trigger] s.use_nonce(account).state[a].owned_tokens.contains(x) by {
        let a = choose|a: Address| s.state.contains_key(a) && #[trigger] s.state[a].owned_tokens.contains(x);
        assert(s.use_nonce(account).state[a].owned_tokens.contains(x));
    }
}

/// The tokens are non-fungible: in a valid state no two addresses hold a
/// balance of the same token.
pub proof fn lemma_single_owner(s: StateView, token: u32, a: Address, b: Address)
    requires
        s.valid(),
        s.balance_of(token, a) == 1,
        s.balance_of(token, b) == 1,
    ensures
        a == b,
{
    assert(s.state[a].owned_tokens.contains(token));
    assert(s.state[b].owned_tokens.contains(token));
}

/// In a valid state every token that exists has exactly one owner, whose
/// balance of it is one, and a token that does not exist has no owner.
pub proof fn lemma_exactly_one_owner(s: StateView, token: u32)
    requires
        s.valid(),
    ensures
        s.all_tokens.contains(token) ==> exists|a: Address|
            #[trigger] s.balance_of(token, a) == 1 && forall|b: Address|
                #[trigger] s.balance_of(token, b) == 1 ==> b == a,
        !s.all_tokens.contains(token) ==> forall|b: Address| #[trigger] s.balance_of(token, b) == 0,
{
    if s.all_tokens.contains(token) {
        let a = choose|a: Address| s.state.contains_key(a) && #[trigger] s.state[a].owned_tokens.contains(token);
        assert(s.balance_of(token, a) == 1);
        assert forall|b: Address| #[trigger] s.balance_of(token, b) == 1 implies b == a by {
            lemma_single_owner(s, token, a, b);
        }
    } else {
        assert forall|b: Address| #[trigger] s.balance_of(token, b) == 0 by {
            if s.state.contains_key(b) && s.state[b].owned_tokens.contains(token) {
                assert(s.all_tokens.contains(token));
            }
        }
    }
}

/// A freshly minted token exists and belongs to its owner alone.
pub proof fn lemma_mint_gives_owner_the_token(
    s: StateView,
    token: u32,
    owner: Address,
    url: Seq<char>,
    other: Address,
)
    requires
        s.valid(),
        !s.all_tokens.contains(token),
    ensures
        s.mint(token, owner, url).all_tokens.contains(token),
        s.mint(token, owner, url).balance_of(token, owner) == 1,
        other != owner ==> s.mint(token, owner, url).balance_of(token, other) == 0,
        s.mint(token, owner, url).token_metadata_urls[token] == url,
{
    if other != owner && s.state.contains_key(other) {
        assert(!s.state[other].owned_tokens.contains(token));
    }
}

/// A successful transfer of one token moves it from `from` to `to`; a
/// transfer of nothing changes nothing.
pub proof fn lemma_transfer_moves_token(s: StateView, token: u32, amount: u8, from: Address, to: Address)
    requires
        s.valid(),
        s.transfer_result(token, amount, from) is Ok,
    ensures
        amount == 0 ==> s.transfer(token, amount, from, to) == s,
        amount == 1 ==> s.transfer(token, amount, from, to).balance_of(token, to) == 1,
        amount == 1 && from != to ==> s.transfer(token, amount, from, to).balance_of(token, from) == 0,
{
}

/// After adding an operator it is one; after removing it, it is not.
pub proof fn lemma_operator_updates(s: StateView, owner: Address, operator: Address)
    ensures
        s.add_operator(owner, operator).is_operator_of(operator, owner),
        !s.remove_operator(owner, operator).is_operator_of(operator, owner),
{
}

/// A nonce, once used, is not accepted again: the next nonce of the account
/// differs from the one just used.
pub proof fn lemma_nonce_advances(s: StateView, account: AccountAddress)
    ensures
        s.use_nonce(account).next_nonce(account) != s.next_nonce(account),
{
}

/// A permit message cannot be replayed: once its checks passed and its
/// nonce was used, the same message fails with `NonceMismatch`, whatever
/// the block time.
pub proof fn lemma_permit_not_replayable(
    s: StateView,
    signer: AccountAddress,
    message: PermitMessage,
    self_address: ContractAddress,
    slot_time: u64,
    later_slot_time: u64,
)
    requires
        permit_check(s, signer, message, self_address, slot_time) is Ok,
    ensures
        permit_check(s.use_nonce(signer), signer, message, self_address, later_slot_time) == Err::<
            u64,
            ContractError,
        >(ContractError::Custom(CustomContractError::NonceMismatch)),
{
}

/// Once implementors are set for a standard that the contract does not
/// support itself, a query for it answers exactly those implementors.
pub proof fn lemma_set_implementors_then_supports(
    s: StateView,
    id: Seq<char>,
    implementors: Seq<ContractAddress>,
    answer: SupportResult,
)
    requires
        !is_supported_standard(id),
        support_answer(s.set_implementors(id, implementors), id, answer),
    ensures
        answer matches SupportResult::SupportBy(v) && v@ == implementors,
{
}

/// An operator update of `owner` touches only the operator `operator` of
/// `owner`: adding it keeps every other operator of `owner` and inserts it,
/// removing it keeps every other operator and takes it out; the operators of
/// every other address, all balances and all tokens stay as they were.
pub proof fn lemma_operator_update_effect(
    s: StateView,
    update: OperatorUpdate,
    owner: Address,
    operator: Address,
    x: Address,
    other: Address,
    token: u32,
)
    ensures
        apply_update(s, OperatorUpdate::Add, owner, operator).is_operator_of(x, owner) == (x == operator
            || s.is_operator_of(x, owner)),
        apply_update(s, OperatorUpdate::Remove, owner, operator).is_operator_of(x, owner) == (x != operator
            && s.is_operator_of(x, owner)),
        other != owner ==> apply_update(s, update, owner, operator).is_operator_of(x, other) == s.is_operator_of(
            x,
            other,
        ),
        apply_update(s, update, owner, operator).balance_of(token, x) == s.balance_of(token, x),
        apply_update(s, update, owner, operator).all_tokens == s.all_tokens,
{
}

/// Who may move the tokens of `from`: exactly `from` itself and the members
/// of `from`'s own operator set. Whom `sender` has made its operators plays
/// no part; a sender that is neither is refused (`contract_transfer_step`
/// then answers `Unauthorized` and changes nothing).
pub proof fn lemma_transfer_authorization(s: StateView, sender: Address, from: Address)
    ensures
        may_transfer(s, from, from),
        s.record(from).operators.contains(sender) ==> may_transfer(s, sender, from),
        sender != from && !s.record(from).operators.contains(sender) ==> !may_transfer(s, sender, from),
{
}

/// Whether `sender` may move the tokens of `from` depends on `from`'s
/// operators alone: two states that agree on them agree on it, whatever
/// else differs.
pub proof fn lemma_transfer_authorization_local(s1: StateView, s2: StateView, sender: Address, from: Address)
    requires
        s1.record(from).operators == s2.record(from).operators,
    ensures
        may_transfer(s1, sender, from) == may_transfer(s2, sender, from),
{
}

/// The contract supports exactly the standards "CIS-0" and "CIS-2" itself;
/// for any other standard it answers the implementors registered for it, or
/// that it is not supported when none are.
pub proof fn lemma_support_answers(s: StateView, id: Seq<char>, r: SupportResult)
    requires
        support_answer(s, id, r),
    ensures
        is_supported_standard(id) == (id == "CIS-0"@ || id == "CIS-2"@),
        id == "CIS-0"@ || id == "CIS-2"@ ==> r == SupportResult::Support,
        id != "CIS-0"@ && id != "CIS-2"@ && s.implementors.contains_key(id) ==> (r matches SupportResult::SupportBy(
            v,
        ) && v@ == s.implementors[id]),
        id != "CIS-0"@ && id != "CIS-2"@ && !s.implementors.contains_key(id) ==> r == SupportResult::NoSupport,
{
}

/// `supportsPermit` answers `Support` for an entrypoint exactly when a
/// validly signed permit naming it is dispatched, and `NoSupport` otherwise.
pub proof fn lemma_permit_support_matches_dispatch(queries: Seq<Seq<char>>, r: Seq<SupportResult>)
    requires
        permit_support_answers(queries, r),
    ensures
        r.len() == queries.len(),
        forall|i: int|
            0 <= i < queries.len() ==> (#[trigger] r[i] == SupportResult::Support) == authorize_result(
                Ok::<bool, CheckAccountSignatureError>(true),
                queries[i],
            ) is Ok,
        forall|i: int|
            0 <= i < queries.len() ==> #[trigger] r[i] == SupportResult::Support || r[i] == SupportResult::NoSupport,
{
    assert forall|i: int| 0 <= i < queries.len() implies (#[trigger] r[i] == SupportResult::Support)
        == authorize_result(Ok::<bool, CheckAccountSignatureError>(true), queries[i]) is Ok by {
        assert(r[i] == SupportResult::Support || r[i] == SupportResult::NoSupport);
    }
}

/// A permit that passed its checks and names `transfer` leaves exactly the
/// transfers of the signed payload, in order, to be executed as the signer;
/// none is dropped, added or reordered.
pub proof fn lemma_permit_executes_signed_transfers(
    s: StateView,
    t: StateView,
    signer: AccountAddress,
    nonce: u64,
    payload: Seq<u8>,
    plan: PermitPlan,
)
    requires
        permit_plan_outcome(s, t, signer, nonce, PermitAction::Transfer, payload, plan),
    ensures
        transfer_payload(payload) == Some(plan.transfers@),
        plan.sender == Address::Account(signer),
        t.next_nonce(signer) != s.next_nonce(signer),
{
}

/// A permit is dispatched exactly when its signature check succeeded and it
/// names `transfer` or `updateOperator`; a failed or impossible signature
/// check is never dispatched, whatever the entrypoint.
pub proof fn lemma_permit_dispatch(check: Result<bool, CheckAccountSignatureError>, entry_point: Seq<char>)
    ensures
        authorize_result(check, entry_point) is Ok == (check == Ok::<bool, CheckAccountSignatureError>(true) && (
        entry_point == "transfer"@ || entry_point == "updateOperator"@)),
        authorize_result(check, entry_point) == Ok::<PermitAction, ContractError>(PermitAction::Transfer) ==> entry_point
            == "transfer"@,
        authorize_result(check, entry_point) == Ok::<PermitAction, ContractError>(PermitAction::UpdateOperator)
            ==> entry_point == "updateOperator"@,
{
    reveal_strlit("transfer");
    reveal_strlit("updateOperator");
}

/// Operator updates by `sender` change the operators of `sender` only: every
/// other address keeps its operators, and all balances stay.
pub proof fn lemma_updates_touch_only_sender(
    s: StateView,
    sender: Address,
    updates: Seq<UpdateOperator>,
    x: Address,
    other: Address,
    token: u32,
)
    ensures
        other != sender ==> apply_updates(s, sender, updates).is_operator_of(x, other) == s.is_operator_of(x, other),
        apply_updates(s, sender, updates).balance_of(token, x) == s.balance_of(token, x),
    decreases updates.len(),
{
    if updates.len() > 0 {
        lemma_updates_touch_only_sender(s, sender, updates.drop_last(), x, other, token);
        let u = updates.last();
        lemma_operator_update_effect(apply_updates(s, sender, updates.drop_last()), u.update, sender, u.operator, x, other, token);
    }
}

/// A permit that passed its checks and names `updateOperator` changes only
/// the signer's operators, leaves nothing to transfer, and is executed as
/// the signer.
pub proof fn lemma_permit_updates_only_signer(
    s: StateView,
    t: StateView,
    signer: AccountAddress,
    nonce: u64,
    payload: Seq<u8>,
    plan: PermitPlan,
    x: Address,
    other: Address,
    token: u32,
)
    requires
        permit_plan_outcome(s, t, signer, nonce, PermitAction::UpdateOperator, payload, plan),
    ensures
        plan.transfers@.len() == 0,
        plan.sender == Address::Account(signer),
        other != Address::Account(signer) ==> t.is_operator_of(x, other) == s.is_operator_of(x, other),
        t.balance_of(token, x) == s.balance_of(token, x),
{
    let us = crate::payload::update_operator_payload(payload)->0;
    lemma_updates_touch_only_sender(s.use_nonce(signer), Address::Account(signer), us, x, other, token);
}

} // verus!
