//! Histories of updates: every entrypoint that changes the state does so by
//! one or more of the updates below (a failed call changes nothing), and the
//! laws here hold whatever other updates come in between.

use vstd::prelude::*;
use crate::address::{AccountAddress, Address, ContractAddress};
use crate::contract::{apply_update, mint_accepted, mint_all, permit_check, support_answer};
use crate::errors::{ContractError, CustomContractError};
use crate::laws::{
    lemma_add_operator_keeps_valid, lemma_mint_keeps_valid, lemma_registries_keep_valid,
    lemma_remove_operator_keeps_valid, lemma_transfer_keeps_valid,
};
use crate::metadata::is_supported_standard;
use crate::model::StateView;
use crate::types::{OperatorUpdate, PermitMessage, SupportResult};

verus! {

/// One update of the state.
pub enum Op {
    /// `contract_mint`: mint `tokens` (the parameter's set, in increasing
    /// order) to `owner` with metadata base URL `url`.
    Mint { tokens: Seq<u32>, owner: Address, url: Seq<char> },
    /// `contract_transfer_step` by an authorized sender.
    Transfer { token: u32, amount: u8, from: Address, to: Address },
    /// `update_operator`, one per update of `contract_update_operator`.
    UpdateOperator { update: OperatorUpdate, owner: Address, operator: Address },
    /// `contract_set_implementor` by the owner of the instance.
    SetImplementors { id: Seq<char>, implementors: Seq<ContractAddress> },
    /// The nonce use of a successful `contract_permit` of `account`; the
    /// operator updates it applies follow as `UpdateOperator` updates, the
    /// transfers it leaves as `Transfer` updates.
    UseNonce { account: AccountAddress },
}

/// The state after one update.
pub open spec fn apply_op(s: StateView, op: Op) -> StateView {
    match op {
        Op::Mint { tokens, owner, url } => if mint_accepted(s, tokens) {
            mint_all(s, tokens, owner, url)
        } else {
            s
        },
        Op::Transfer { token, amount, from, to } => s.transfer(token, amount, from, to),
        Op::UpdateOperator { update, owner, operator } => apply_update(s, update, owner, operator),
        Op::SetImplementors { id, implementors } => s.set_implementors(id, implementors),
        Op::UseNonce { account } => s.use_nonce(account),
    }
}

/// The state after the updates `ops`, in order.
pub open spec fn apply_ops(s: StateView, ops: Seq<Op>) -> StateView
    decreases ops.len(),
{
    if ops.len() == 0 {
        s
    } else {
        apply_op(apply_ops(s, ops.drop_last()), ops.last())
    }
}

/// How many of `ops` use a nonce of `account`.
pub open spec fn nonce_uses(ops: Seq<Op>, account: AccountAddress) -> nat
    decreases ops.len(),
{
    if ops.len() == 0 {
        0
    } else {
        nonce_uses(ops.drop_last(), account) + if ops.last() == (Op::UseNonce { account }) {
            1nat
        } else {
            0nat
        }
    }
}

/// Whether `op` sets the implementors of `id`.
pub open spec fn sets_implementors(op: Op, id: Seq<char>) -> bool {
    match op {
        Op::SetImplementors { id: j, .. } => j == id,
        _ => false,
    }
}

/// Whether one of `ops` sets the implementors of `id`.
pub open spec fn sets_implementors_of(ops: Seq<Op>, id: Seq<char>) -> bool {
    exists|i: int| 0 <= i < ops.len() && #[trigger] sets_implementors(ops[i], id)
}

proof fn lemma_mint_all_frame(s: StateView, tokens: Seq<u32>, owner: Address, url: Seq<char>)
    ensures
        mint_all(s, tokens, owner, url).implementors == s.implementors,
        mint_all(s, tokens, owner, url).nonces_registry == s.nonces_registry,
        forall|t: u32|
            !tokens.contains(t) ==> #[trigger] mint_all(s, tokens, owner, url).token_metadata_urls.contains_key(t)
                == s.token_metadata_urls.contains_key(t) && mint_all(s, tokens, owner, url).token_metadata_urls[t]
                == s.token_metadata_urls[t],
        forall|t: u32| tokens.contains(t) ==> #[trigger] mint_all(s, tokens, owner, url).token_metadata_urls[t] == url,
        forall|t: u32|
            #[trigger] mint_all(s, tokens, owner, url).all_tokens.contains(t) == (s.all_tokens.contains(t)
                || tokens.contains(t)),
    decreases tokens.len(),
{
    if tokens.len() > 0 {
        let p = tokens.drop_last();
        lemma_mint_all_frame(s, p, owner, url);
        assert forall|t: u32| tokens.contains(t) && t != tokens.last() implies p.contains(t) by {
            let k = choose|k: int| 0 <= k < tokens.len() && tokens[k] == t;
            assert(p[k] == t);
        }
        assert forall|t: u32| p.contains(t) implies tokens.contains(t) by {
            let k = choose|k: int| 0 <= k < p.len() && p[k] == t;
            assert(tokens[k] == t);
        }
        assert(tokens.contains(tokens.last())) by {
            assert(tokens[tokens.len() - 1] == tokens.last());
        }
    }
}

proof fn lemma_mint_all_keeps_valid(s: StateView, tokens: Seq<u32>, owner: Address, url: Seq<char>)
    requires
        s.valid(),
        mint_accepted(s, tokens),
    ensures
        mint_all(s, tokens, owner, url).valid(),
    decreases tokens.len(),
{
    if tokens.len() > 0 {
        let p = tokens.drop_last();
        assert(mint_accepted(s, p)) by {
            assert forall|i: int| 0 <= i < p.len() implies !s.all_tokens.contains(#[trigger] p[i]) by {
                assert(p[i] == tokens[i]);
            }
        }
        lemma_mint_all_keeps_valid(s, p, owner, url);
        lemma_mint_all_frame(s, p, owner, url);
        let x = tokens.last();
        if p.contains(x) {
            let k = choose|k: int| 0 <= k < p.len() && p[k] == x;
            assert(tokens[k] == tokens[tokens.len() - 1]);
        }
        assert(!s.all_tokens.contains(tokens[tokens.len() - 1]));
        lemma_mint_keeps_valid(mint_all(s, p, owner, url), x, owner, url);
    }
}

/// Every update keeps the bookkeeping invariant.
pub proof fn lemma_op_keeps_valid(s: StateView, op: Op)
    requires
        s.valid(),
    ensures
        apply_op(s, op).valid(),
{
    match op {
        Op::Mint { tokens, owner, url } => {
            if mint_accepted(s, tokens) {
                lemma_mint_all_keeps_valid(s, tokens, owner, url);
            }
        },
        Op::Transfer { token, amount, from, to } => lemma_transfer_keeps_valid(s, token, amount, from, to),
        Op::UpdateOperator { update, owner, operator } => {
            lemma_add_operator_keeps_valid(s, owner, operator);
            lemma_remove_operator_keeps_valid(s, owner, operator);
        },
        Op::SetImplementors { id, implementors } => lemma_registries_keep_valid(
            s,
            id,
            implementors,
            vstd::pervasive::arbitrary(),
        ),
        Op::UseNonce { account } => lemma_registries_keep_valid(s, Seq::empty(), Seq::empty(), account),
    }
}

/// Every history of updates keeps the bookkeeping invariant.
pub proof fn lemma_ops_keep_valid(s: StateView, ops: Seq<Op>)
    requires
        s.valid(),
    ensures
        apply_ops(s, ops).valid(),
    decreases ops.len(),
{
    if ops.len() > 0 {
        lemma_ops_keep_valid(s, ops.drop_last());
        lemma_op_keeps_valid(apply_ops(s, ops.drop_last()), ops.last());
    }
}

proof fn lemma_op_nonce(s: StateView, op: Op, account: AccountAddress)
    ensures
        apply_op(s, op).next_nonce(account) == (if op == (Op::UseNonce { account }) {
            (s.next_nonce(account) + 1) % 0x1_0000_0000_0000_0000
        } else {
            s.next_nonce(account) as int
        }),
{
    match op {
        Op::Mint { tokens, owner, url } => lemma_mint_all_frame(s, tokens, owner, url),
        _ => {},
    }
}

/// The next nonce of an account after a history is its nonce before,
/// advanced by the history's uses of it, wrapping around at 2^64.
pub proof fn lemma_ops_nonce(s: StateView, ops: Seq<Op>, account: AccountAddress)
    ensures
        apply_ops(s, ops).next_nonce(account) == (s.next_nonce(account) + nonce_uses(ops, account))
            % 0x1_0000_0000_0000_0000,
    decreases ops.len(),
{
    if ops.len() > 0 {
        let p = ops.drop_last();
        lemma_ops_nonce(s, p, account);
        lemma_op_nonce(apply_ops(s, p), ops.last(), account);
        let n = s.next_nonce(account) as int;
        let c = nonce_uses(p, account) as int;
        let m = 0x1_0000_0000_0000_0000int;
        assert(((n + c) % m + 1) % m == (n + c + 1) % m) by (nonlinear_arith)
            requires m > 0;
    } else {
        assert(s.next_nonce(account) < 0x1_0000_0000_0000_0000);
    }
}

proof fn lemma_nonce_uses_bound(ops: Seq<Op>, account: AccountAddress)
    ensures
        nonce_uses(ops, account) <= ops.len(),
    decreases ops.len(),
{
    if ops.len() > 0 {
        lemma_nonce_uses_bound(ops.drop_last(), account);
    }
}

/// A signed permit message is executed at most once: once its checks passed
/// and its nonce was used, the same message fails with `NonceMismatch` after
/// any history of fewer than 2^64 - 1 further updates, at any block time.
pub proof fn lemma_permit_never_replayed(
    s: StateView,
    signer: AccountAddress,
    message: PermitMessage,
    self_address: ContractAddress,
    slot_time: u64,
    ops: Seq<Op>,
    later_slot_time: u64,
)
    requires
        permit_check(s, signer, message, self_address, slot_time) is Ok,
        ops.len() < u64::MAX,
    ensures
        permit_check(apply_ops(s.use_nonce(signer), ops), signer, message, self_address, later_slot_time)
            == Err::<u64, ContractError>(ContractError::Custom(CustomContractError::NonceMismatch)),
{
    let t = s.use_nonce(signer);
    lemma_ops_nonce(t, ops, signer);
    lemma_nonce_uses_bound(ops, signer);
    let n = s.next_nonce(signer) as int;
    let c = nonce_uses(ops, signer) as int;
    let m = 0x1_0000_0000_0000_0000int;
    assert(t.next_nonce(signer) == (n + 1) % m);
    assert(((n + 1) % m + c) % m == (n + 1 + c) % m) by {
        vstd::arithmetic::div_mod::lemma_add_mod_noop_right(c, n + 1, m);
    }
    assert((n + 1 + c) % m != n) by (nonlinear_arith)
        requires 0 <= n < m, 0 <= c, c + 1 < m;
}

/// Once implementors are set for a standard that the contract does not
/// support itself, a query for it answers exactly those implementors after
/// any history of updates that does not set them again.
pub proof fn lemma_implementors_stay(
    s: StateView,
    id: Seq<char>,
    implementors: Seq<ContractAddress>,
    ops: Seq<Op>,
    answer: SupportResult,
)
    requires
        !is_supported_standard(id),
        !sets_implementors_of(ops, id),
        support_answer(apply_ops(s.set_implementors(id, implementors), ops), id, answer),
    ensures
        apply_ops(s.set_implementors(id, implementors), ops).implementors.contains_key(id),
        apply_ops(s.set_implementors(id, implementors), ops).implementors[id] == implementors,
        answer matches SupportResult::SupportBy(v) && v@ == implementors,
{
    lemma_ops_keep_implementors(s.set_implementors(id, implementors), ops, id);
}

proof fn lemma_ops_keep_implementors(s: StateView, ops: Seq<Op>, id: Seq<char>)
    requires
        !sets_implementors_of(ops, id),
    ensures
        apply_ops(s, ops).implementors.contains_key(id) == s.implementors.contains_key(id),
        apply_ops(s, ops).implementors[id] == s.implementors[id],
    decreases ops.len(),
{
    if ops.len() > 0 {
        let p = ops.drop_last();
        assert(!sets_implementors_of(p, id)) by {
            if sets_implementors_of(p, id) {
                let i = choose|i: int| 0 <= i < p.len() && #[trigger] sets_implementors(p[i], id);
                assert(ops[i] == p[i]);
                assert(sets_implementors(ops[i], id));
            }
        }
        lemma_ops_keep_implementors(s, p, id);
        let q = apply_ops(s, p);
        assert(ops[ops.len() - 1] == ops.last());
        assert(!sets_implementors(ops[ops.len() - 1], id));
        match ops.last() {
            Op::Mint { tokens, owner, url } => lemma_mint_all_frame(q, tokens, owner, url),
            _ => {},
        }
    }
}

/// The metadata URL stored at mint stays: after minting, and any history of
/// updates after it, each minted token still exists and keeps the base URL it
/// was minted with, so a metadata query answers the URL logged at mint.
pub proof fn lemma_minted_url_stays(
    s: StateView,
    tokens: Seq<u32>,
    owner: Address,
    url: Seq<char>,
    ops: Seq<Op>,
    token: u32,
)
    requires
        s.valid(),
        mint_accepted(s, tokens),
        tokens.contains(token),
    ensures
        apply_ops(mint_all(s, tokens, owner, url), ops).all_tokens.contains(token),
        apply_ops(mint_all(s, tokens, owner, url), ops).token_metadata_urls.contains_key(token),
        apply_ops(mint_all(s, tokens, owner, url), ops).token_metadata_urls[token] == url,
{
    let t = mint_all(s, tokens, owner, url);
    lemma_mint_all_frame(s, tokens, owner, url);
    lemma_mint_all_keeps_valid(s, tokens, owner, url);
    lemma_ops_keep_url(t, ops, token);
}

proof fn lemma_ops_keep_url(s: StateView, ops: Seq<Op>, token: u32)
    requires
        s.valid(),
        s.all_tokens.contains(token),
    ensures
        apply_ops(s, ops).all_tokens.contains(token),
        apply_ops(s, ops).token_metadata_urls.contains_key(token),
        apply_ops(s, ops).token_metadata_urls[token] == s.token_metadata_urls[token],
    decreases ops.len(),
{
    if ops.len() > 0 {
        let p = ops.drop_last();
        lemma_ops_keep_url(s, p, token);
        lemma_ops_keep_valid(s, p);
        let q = apply_ops(s, p);
        match ops.last() {
            Op::Mint { tokens, owner, url } => {
                lemma_mint_all_frame(q, tokens, owner, url);
                if mint_accepted(q, tokens) && tokens.contains(token) {
                    let k = choose|k: int| 0 <= k < tokens.len() && tokens[k] == token;
                    assert(!q.all_tokens.contains(tokens[k]));
                }
            },
            Op::Transfer { token: x, amount, from, to } => lemma_transfer_keeps_valid(q, x, amount, from, to),
            _ => {},
        }
    }
    assert(s.token_metadata_urls.dom().contains(token));
}

} // verus!
