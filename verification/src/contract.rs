//! The contract's entrypoints. Each takes the parsed parameter and the
//! values the chain supplies, updates the state and hands back what the
//! caller must log or answer. A call that fails leaves the state as it was,
//! as the chain discards the changes of a rejected call.

use vstd::prelude::*;
use vstd::std_specs::iter::IteratorSpec;
use crate::address::{AccountAddress, Address, ContractAddress, same_address};
use crate::errors::{CheckAccountSignatureError, ContractError, CustomContractError};
use crate::laws::{
    lemma_add_operator_keeps_valid, lemma_mint_keeps_valid, lemma_registries_keep_valid,
    lemma_remove_operator_keeps_valid, lemma_transfer_keeps_valid,
};
use crate::metadata::{
    build_token_metadata_url, is_permit_entrypoint, is_supported_standard, metadata_url_of, string_is,
    supports_permit_entrypoint, supports_standard,
};
use crate::model::StateView;
use crate::parameter::{
    balance_of_parameter, balance_of_queries, mint_params, mint_parameter, operator_of_parameter,
    operator_of_queries, parse_error, permit_params, permit_parameter, set_implementors_parameter,
    set_implementors_params, supports_parameter, supports_queries, token_metadata_parameter,
    token_metadata_queries, update_operator_parameter,
};
use crate::payload::{
    PermitPayload, parse_permit_signer, permit_payload, permit_signer_prefix, transfer_payload,
    update_operator_payload,
};
use crate::state::State;
use crate::types::{
    BalanceOfQuery, Cis2Event, Event, MetadataUrl, MintParams, OnReceivingCis2Params, OperatorOfQuery,
    NonceEvent, OperatorUpdate, PermitAction, PermitMessage, ReceiveHook, Receiver, SetImplementorsParams,
    SupportResult, Transfer, TransferAction, UpdateOperator, receiver_address,
};

verus! {

/// Initialize the contract state with no tokens.
pub fn contract_init() -> (r: State)
    ensures
        r.wf(),
        r@ == StateView::empty(),
        r@.valid(),
{
    proof {
        crate::laws::lemma_empty_valid();
    }
    State::empty()
}

/// The state after minting `tokens`, in order, to `owner`, each with `url`
/// as its stored metadata URL.
pub open spec fn mint_all(s: StateView, tokens: Seq<u32>, owner: Address, url: Seq<char>) -> StateView
    decreases tokens.len(),
{
    if tokens.len() == 0 {
        s
    } else {
        mint_all(s, tokens.drop_last(), owner, url).mint(tokens.last(), owner, url)
    }
}

/// Minting `tokens` succeeds: none exists yet and none is listed twice.
pub open spec fn mint_accepted(s: StateView, tokens: Seq<u32>) -> bool {
    &&& forall|i: int| 0 <= i < tokens.len() ==> !s.all_tokens.contains(#[trigger] tokens[i])
    &&& forall|i: int, j: int| 0 <= i < j < tokens.len() ==> tokens[i] != tokens[j]
}

/// `e` is the event that sets the metadata URL of `token` to `url`.
pub open spec fn is_metadata_event(e: Event, token: u32, url: Seq<char>) -> bool {
    match e {
        Event::Cis2Event(Cis2Event::TokenMetadata { token_id, metadata_url }) => {
            &&& token_id == token
            &&& metadata_url.url@ == url
            &&& metadata_url.hash is None
        },
        _ => false,
    }
}

/// The events of minting `tokens` to `owner`: for each token a `Mint` event
/// of amount one, then its `TokenMetadata` event.
pub open spec fn mint_events(events: Seq<Event>, tokens: Seq<u32>, owner: Address, base: Seq<char>) -> bool {
    &&& events.len() == 2 * tokens.len()
    &&& forall|i: int|
        0 <= i < tokens.len() ==> {
            &&& events[2 * i] == Event::Cis2Event(
                Cis2Event::Mint { token_id: tokens[i], amount: 1, owner },
            )
            &&& is_metadata_event(events[2 * i + 1], tokens[i], metadata_url_of(tokens[i], base))
        }
}

proof fn lemma_mint_all_tokens(s: StateView, tokens: Seq<u32>, owner: Address, url: Seq<char>, x: u32)
    ensures
        mint_all(s, tokens, owner, url).all_tokens.contains(x) == (s.all_tokens.contains(x)
            || tokens.contains(x)),
    decreases tokens.len(),
{
    if tokens.len() > 0 {
        lemma_mint_all_tokens(s, tokens.drop_last(), owner, url, x);
        if tokens.drop_last().contains(x) {
            let k = choose|k: int| 0 <= k < tokens.drop_last().len() && tokens.drop_last()[k] == x;
            assert(tokens[k] == x);
        }
        if tokens.contains(x) && x != tokens.last() {
            let k = choose|k: int| 0 <= k < tokens.len() && tokens[k] == x;
            assert(tokens.drop_last()[k] == x);
        }
    }
}

/// `q` lists the tokens of `tokens`, each once, in increasing order.
pub open spec fn ascending_listing(q: Seq<u32>, tokens: Set<u32>) -> bool {
    &&& forall|i: int, j: int| 0 <= i < j < q.len() ==> q[i] < q[j]
    &&& forall|t: u32| tokens.contains(t) <==> q.contains(t)
}

/// The tokens of `tokens` in increasing order.
pub open spec fn ascending(tokens: Set<u32>) -> Seq<u32> {
    choose|q: Seq<u32>| ascending_listing(q, tokens)
}

proof fn lemma_listing_drop_first(q: Seq<u32>, tokens: Set<u32>)
    requires
        ascending_listing(q, tokens),
        q.len() > 0,
    ensures
        ascending_listing(q.drop_first(), tokens.remove(q[0])),
{
    let r = q.drop_first();
    assert forall|t: u32| tokens.remove(q[0]).contains(t) <==> r.contains(t) by {
        if r.contains(t) {
            let k = choose|k: int| 0 <= k < r.len() && r[k] == t;
            assert(q[k + 1] == t);
            assert(q[0] < q[k + 1]);
        }
        if tokens.remove(q[0]).contains(t) {
            assert(q.contains(t));
            let k = choose|k: int| 0 <= k < q.len() && q[k] == t;
            assert(k != 0);
            assert(r[k - 1] == t);
        }
    }
}

/// A set has only one listing in increasing order.
pub proof fn lemma_ascending_listing_unique(q1: Seq<u32>, q2: Seq<u32>, tokens: Set<u32>)
    requires
        ascending_listing(q1, tokens),
        ascending_listing(q2, tokens),
    ensures
        q1 == q2,
    decreases q1.len(),
{
    if q1.len() == 0 || q2.len() == 0 {
        if q1.len() > 0 {
            assert(q1.contains(q1[0]));
        }
        if q2.len() > 0 {
            assert(q2.contains(q2[0]));
        }
        assert(q1 =~= q2);
    } else {
        let a = q1[0];
        let b = q2[0];
        assert(q1.contains(a));
        assert(q2.contains(b));
        let j = choose|j: int| 0 <= j < q2.len() && q2[j] == a;
        let k = choose|k: int| 0 <= k < q1.len() && q1[k] == b;
        if j > 0 {
            assert(q2[0] < q2[j]);
        }
        if k > 0 {
            assert(q1[0] < q1[k]);
        }
        assert(a == b);
        lemma_listing_drop_first(q1, tokens);
        lemma_listing_drop_first(q2, tokens);
        lemma_ascending_listing_unique(q1.drop_first(), q2.drop_first(), tokens.remove(a));
        assert(q1 =~= q2) by {
            assert forall|i: int| 0 <= i < q1.len() implies q1[i] == q2[i] by {
                if i > 0 {
                    assert(q1[i] == q1.drop_first()[i - 1]);
                    assert(q2[i] == q2.drop_first()[i - 1]);
                }
            }
        }
    }
}

/// The tokens of a set in increasing order, which is the order in which a
/// `BTreeSet` hands them out.
fn ascending_tokens(tokens: &std::collections::BTreeSet<u32>) -> (v: Vec<u32>)
    ensures
        ascending_listing(v@, tokens@),
        v@ == ascending(tokens@),
{
    let mut v: Vec<u32> = Vec::new();
    proof {
        assert(vstd::std_specs::btree::key_obeys_cmp_spec::<u32>());
    }
    for t in it: tokens.iter()
        invariant
            v.len() == it.index(),
            forall|i: int| 0 <= i < v.len() ==> v@[i] == *it.seq()[i],
            it.seq() == vstd::std_specs::btree::spec_btree_keys_iter(tokens).remaining(),
    {
        v.push(*t);
    }
    proof {
        let r = vstd::std_specs::btree::spec_btree_keys_iter(tokens).remaining();
        assert(v@ =~= r.unref());
        vstd::std_specs::btree::axiom_spec_btree_keys_iter(tokens);
        assert(v@.to_set() == tokens@);
        assert(vstd::std_specs::btree::increasing_seq(r));
        assert(vstd::laws_cmp::obeys_cmp::<&u32>());
        assert forall|i: int, j: int| 0 <= i < j < v@.len() implies v@[i] < v@[j] by {
            assert(vstd::std_specs::cmp::OrdSpec::cmp_spec(&r[i], &r[j]) is Less);
        }
        assert forall|t: u32| tokens@.contains(t) <==> v@.contains(t) by {
            assert(v@.to_set().contains(t) <==> v@.contains(t));
        }
        assert(ascending_listing(v@, tokens@));
        lemma_ascending_listing_unique(v@, ascending(tokens@), tokens@);
    }
    v
}

/// What a mint answers: the events to log, in order, then its outcome. When
/// a token already exists, the events are those of the tokens before it,
/// which are logged before that token is reached.
#[derive(Debug, PartialEq, Eq)]
pub struct MintReport {
    pub events: Vec<Event>,
    pub result: Result<(), ContractError>,
}

/// The first of `tokens` that exists in `s` is the one at position `k`.
pub open spec fn first_existing(s: StateView, tokens: Seq<u32>, k: int) -> bool {
    &&& 0 <= k < tokens.len()
    &&& s.all_tokens.contains(tokens[k])
    &&& forall|i: int| 0 <= i < k ==> !s.all_tokens.contains(#[trigger] tokens[i])
}

/// The outcome of minting `tokens`, in order, to `owner` with metadata base
/// URL `base` from state `s`: on success the tokens are minted and the events
/// are a `Mint` and a `TokenMetadata` event for each token; otherwise the
/// error is `TokenIdAlreadyExists`, the events are those of the tokens before
/// the first that exists, and the state is unchanged.
pub open spec fn mint_listing_outcome(
    s: StateView,
    t: StateView,
    tokens: Seq<u32>,
    owner: Address,
    base: Seq<char>,
    r: MintReport,
) -> bool {
    match r.result {
        Ok(_) => {
            &&& mint_accepted(s, tokens)
            &&& t == mint_all(s, tokens, owner, base)
            &&& mint_events(r.events@, tokens, owner, base)
        },
        Err(e) => {
            &&& exists|k: int|
                #[trigger] first_existing(s, tokens, k) && mint_events(r.events@, tokens.take(k), owner, base)
            &&& e == ContractError::Custom(CustomContractError::TokenIdAlreadyExists)
            &&& t == s
        },
    }
}

/// The outcome of minting the set `tokens` to `owner` with metadata base URL
/// `base` from state `s`: the tokens are minted in increasing order, the
/// order in which the set hands them out.
pub open spec fn mint_outcome(
    s: StateView,
    t: StateView,
    owner: Address,
    base: Seq<char>,
    tokens: Set<u32>,
    r: MintReport,
) -> bool {
    &&& ascending_listing(ascending(tokens), tokens)
    &&& mint_listing_outcome(s, t, ascending(tokens), owner, base, r)
}

/// The `Mint` and `TokenMetadata` events of the first `k` of `tokens`.
fn listing_events(tokens: &Vec<u32>, k: usize, owner: &Address, base: &String) -> (events: Vec<Event>)
    requires
        k <= tokens.len(),
    ensures
        mint_events(events@, tokens@.take(k as int), *owner, base@),
{
    let mut events: Vec<Event> = Vec::new();
    let mut i: usize = 0;
    while i < k
        invariant
            0 <= i <= k <= tokens.len(),
            mint_events(events@, tokens@.take(i as int), *owner, base@),
        decreases k - i,
    {
        let t = tokens[i];
        events.push(Event::Cis2Event(Cis2Event::Mint { token_id: t, amount: 1, owner: *owner }));
        let url = build_token_metadata_url(t, base.clone());
        events.push(
            Event::Cis2Event(
                Cis2Event::TokenMetadata { token_id: t, metadata_url: MetadataUrl { url, hash: None } },
            ),
        );
        proof {
            let ts = tokens@.take(i + 1);
            assert(ts.last() == t);
            assert forall|j: int| 0 <= j < ts.len() implies {
                &&& events@[2 * j] == Event::Cis2Event(
                    Cis2Event::Mint { token_id: ts[j], amount: 1, owner: *owner },
                )
                &&& is_metadata_event(events@[2 * j + 1], ts[j], metadata_url_of(ts[j], base@))
            } by {
                if j < i {
                    assert(ts[j] == tokens@.take(i as int)[j]);
                }
            }
        }
        i = i + 1;
    }
    events
}

/// Mints `tokens`, listed in increasing order, to `owner`; if one of them
/// exists already, nothing is minted and the report carries the events of
/// the tokens before it.
fn mint_tokens(state: &mut State, tokens: &Vec<u32>, owner: &Address, base: &String) -> (r: MintReport)
    requires
        old(state).wf(),
        forall|i: int, j: int| 0 <= i < j < tokens@.len() ==> tokens@[i] < tokens@[j],
    ensures
        final(state).wf(),
        mint_listing_outcome(old(state)@, final(state)@, tokens@, *owner, base@, r),
        old(state)@.valid() ==> final(state)@.valid(),
{
    let n = tokens.len();
    let mut i: usize = 0;
    while i < n
        invariant
            n == tokens@.len(),
            0 <= i <= n,
            state.wf(),
            *state == *old(state),
            forall|j: int| 0 <= j < i ==> !state@.all_tokens.contains(#[trigger] tokens@[j]),
        decreases n - i,
    {
        if state.contains_token(&tokens[i]) {
            let events = listing_events(tokens, i, owner, base);
            assert(first_existing(old(state)@, tokens@, i as int));
            return MintReport {
                events,
                result: Err(ContractError::Custom(CustomContractError::TokenIdAlreadyExists)),
            };
        }
        i = i + 1;
    }
    let ghost s0 = state@;
    assert(mint_accepted(s0, tokens@));
    let mut i: usize = 0;
    while i < n
        invariant
            n == tokens@.len(),
            0 <= i <= n,
            state.wf(),
            s0 == old(state)@,
            mint_accepted(s0, tokens@),
            state@ == mint_all(s0, tokens@.take(i as int), *owner, base@),
            s0.valid() ==> state@.valid(),
        decreases n - i,
    {
        let t = tokens[i];
        proof {
            lemma_mint_all_tokens(s0, tokens@.take(i as int), *owner, base@, t);
            if tokens@.take(i as int).contains(t) {
                let k = choose|k: int| 0 <= k < i && tokens@.take(i as int)[k] == t;
                assert(tokens@[k] == tokens@[i as int]);
            }
            if s0.valid() {
                lemma_mint_keeps_valid(state@, t, *owner, base@);
            }
        }
        let _ = state.mint(t, owner, base.clone());
        proof {
            assert(tokens@.take(i + 1).drop_last() =~= tokens@.take(i as int));
        }
        i = i + 1;
    }
    assert(tokens@.take(n as int) =~= tokens@);
    let events = listing_events(tokens, n, owner, base);
    MintReport { events, result: Ok(()) }
}

/// Mint new tokens with a given address as the owner of these tokens. Can
/// only be called by the owner of the contract instance. Answers the events
/// to log: a `Mint` and a `TokenMetadata` event for each token, in
/// increasing order of the tokens. The metadata URL of a token is the base
/// URL appended with the token ID encoded in hex. The parameter is only read
/// once the sender is known to be the owner.
///
/// It rejects if the sender is not the owner of the contract instance, with
/// `ParseParams` if the parameter cannot be read (then no events), or if any
/// of the tokens fails to be minted, which is when the token ID already
/// exists (then the events of the tokens before it).
pub fn contract_mint(state: &mut State, sender: &Address, owner: &AccountAddress, parameter: &Vec<u8>) -> (r:
    MintReport)
    requires
        old(state).wf(),
    ensures
        final(state).wf(),
        *sender != Address::Account(*owner) ==> r.result == Err::<(), ContractError>(ContractError::Unauthorized)
            && r.events@.len() == 0 && final(state)@ == old(state)@,
        *sender == Address::Account(*owner) ==> match mint_parameter(parameter@) {
            Some((to, base, tokens)) => mint_outcome(old(state)@, final(state)@, to, base, tokens, r),
            None => r.result == Err::<(), ContractError>(parse_error()) && r.events@.len() == 0 && final(state)@
                == old(state)@,
        },
        old(state)@.valid() ==> final(state)@.valid(),
{
    if !sender.matches_account(owner) {
        return MintReport { events: Vec::new(), result: Err(ContractError::Unauthorized) };
    }
    match mint_params(parameter) {
        Ok(p) => {
            let tokens = ascending_tokens(&p.tokens);
            mint_tokens(state, &tokens, &p.owner, &p.token_metadata_base_url)
        },
        Err(e) => MintReport { events: Vec::new(), result: Err(e) },
    }
}

/// Whether `address` may move the tokens of `from`: it is `from` itself or
/// one of its operators.
pub open spec fn may_transfer(s: StateView, address: Address, from: Address) -> bool {
    from == address || s.is_operator_of(address, from)
}

/// `r` answers each of `queries`: whether its address is an operator of its
/// owner.
pub open spec fn operator_answers(s: StateView, queries: Seq<OperatorOfQuery>, r: Seq<bool>) -> bool {
    &&& r.len() == queries.len()
    &&& forall|i: int|
        0 <= i < queries.len() ==> #[trigger] r[i] == s.is_operator_of(queries[i].address, queries[i].owner)
}

/// Takes a list of queries, each an owner address and some address to check
/// as an operator of the owner address, and answers each.
pub fn contract_operator_of(state: &State, queries: &Vec<OperatorOfQuery>) -> (r: Vec<bool>)
    requires
        state.wf(),
    ensures
        operator_answers(state@, queries@, r@),
{
    let mut response: Vec<bool> = Vec::new();
    let mut i: usize = 0;
    while i < queries.len()
        invariant
            state.wf(),
            0 <= i <= queries@.len(),
            response@.len() == i,
            forall|j: int|
                0 <= j < i ==> #[trigger] response@[j] == state@.is_operator_of(
                    queries@[j].address,
                    queries@[j].owner,
                ),
        decreases queries@.len() - i,
    {
        let query = &queries[i];
        let is_operator = state.is_operator(&query.address, &query.owner);
        response.push(is_operator);
        i = i + 1;
    }
    response
}

/// Every queried token exists.
pub open spec fn all_tokens_exist(s: StateView, tokens: Seq<u32>) -> bool {
    forall|i: int| 0 <= i < tokens.len() ==> s.all_tokens.contains(#[trigger] tokens[i])
}

/// `r` answers `queries`: the balance of each queried address in each
/// queried token, or `InvalidTokenId` if a queried token does not exist.
pub open spec fn balance_answers(s: StateView, queries: Seq<BalanceOfQuery>, r: Result<Vec<u8>, ContractError>) -> bool {
    match r {
        Ok(amounts) => {
            &&& all_tokens_exist(s, queries.map_values(|q: BalanceOfQuery| q.token_id))
            &&& amounts@.len() == queries.len()
            &&& forall|i: int|
                0 <= i < queries.len() ==> #[trigger] amounts@[i] == s.balance_of(queries[i].token_id, queries[i].address)
        },
        Err(e) => {
            &&& !all_tokens_exist(s, queries.map_values(|q: BalanceOfQuery| q.token_id))
            &&& e == ContractError::InvalidTokenId
        },
    }
}

/// Get the balance of given token IDs and addresses.
///
/// It rejects if any of the queried `token_id` does not exist.
pub fn contract_balance_of(state: &State, queries: &Vec<BalanceOfQuery>) -> (r: Result<Vec<u8>, ContractError>)
    requires
        state.wf(),
    ensures
        balance_answers(state@, queries@, r),
{
    let ghost ids = queries@.map_values(|q: BalanceOfQuery| q.token_id);
    let mut response: Vec<u8> = Vec::new();
    let mut i: usize = 0;
    while i < queries.len()
        invariant
            state.wf(),
            ids == queries@.map_values(|q: BalanceOfQuery| q.token_id),
            0 <= i <= queries@.len(),
            response@.len() == i,
            forall|j: int| 0 <= j < i ==> state@.all_tokens.contains(#[trigger] ids[j]),
            forall|j: int|
                0 <= j < i ==> #[trigger] response@[j] == state@.balance_of(
                    queries@[j].token_id,
                    queries@[j].address,
                ),
        decreases queries@.len() - i,
    {
        let query = &queries[i];
        match state.balance(&query.token_id, &query.address) {
            Ok(amount) => response.push(amount),
            Err(e) => {
                assert(!state@.all_tokens.contains(ids[i as int]));
                return Err(e);
            },
        }
        i = i + 1;
    }
    Ok(response)
}

/// Each queried token exists and has a stored metadata URL.
pub open spec fn metadata_available(s: StateView, tokens: Seq<u32>) -> bool {
    forall|i: int|
        0 <= i < tokens.len() ==> s.all_tokens.contains(#[trigger] tokens[i])
            && s.token_metadata_urls.contains_key(tokens[i])
}

/// `r` answers `queries`: the metadata URL of each queried token, without a
/// checksum, or `InvalidTokenId` if a queried token does not exist.
pub open spec fn metadata_answers(s: StateView, queries: Seq<u32>, r: Result<Vec<MetadataUrl>, ContractError>) -> bool {
    match r {
        Ok(urls) => {
            &&& metadata_available(s, queries)
            &&& urls@.len() == queries.len()
            &&& forall|i: int|
                0 <= i < queries.len() ==> {
                    &&& (#[trigger] urls@[i]).url@ == metadata_url_of(queries[i], s.token_metadata_urls[queries[i]])
                    &&& urls@[i].hash is None
                }
        },
        Err(e) => {
            &&& !metadata_available(s, queries)
            &&& e == ContractError::InvalidTokenId
        },
    }
}

/// Get the token metadata URLs given a list of token IDs; no checksums.
///
/// It rejects if any of the queried `token_id` does not exist.
pub fn contract_token_metadata(state: &State, queries: &Vec<u32>) -> (r: Result<Vec<MetadataUrl>, ContractError>)
    requires
        state.wf(),
    ensures
        metadata_answers(state@, queries@, r),
{
    let mut response: Vec<MetadataUrl> = Vec::new();
    let mut i: usize = 0;
    while i < queries.len()
        invariant
            state.wf(),
            0 <= i <= queries@.len(),
            response@.len() == i,
            forall|j: int|
                0 <= j < i ==> state@.all_tokens.contains(#[trigger] queries@[j])
                    && state@.token_metadata_urls.contains_key(queries@[j]),
            forall|j: int|
                0 <= j < i ==> {
                    &&& (#[trigger] response@[j]).url@ == metadata_url_of(
                        queries@[j],
                        state@.token_metadata_urls[queries@[j]],
                    )
                    &&& response@[j].hash is None
                },
        decreases queries@.len() - i,
    {
        let token_id = queries[i];
        // Check the token exists.
        if !state.contains_token(&token_id) {
            return Err(ContractError::InvalidTokenId);
        }
        let metadata_url = match state.token_metadata_url(&token_id) {
            Some(url) => MetadataUrl { url: build_token_metadata_url(token_id, url.clone()), hash: None },
            None => {
                return Err(ContractError::InvalidTokenId);
            },
        };
        response.push(metadata_url);
        i = i + 1;
    }
    Ok(response)
}

/// The answer to a query for the standard `id`.
pub open spec fn support_answer(s: StateView, id: Seq<char>, r: SupportResult) -> bool {
    if is_supported_standard(id) {
        r == SupportResult::Support
    } else if s.implementors.contains_key(id) {
        r matches SupportResult::SupportBy(v) && v@ == s.implementors[id]
    } else {
        r == SupportResult::NoSupport
    }
}

/// `r` answers each of the standards `queries`.
pub open spec fn support_answers(s: StateView, queries: Seq<Seq<char>>, r: Seq<SupportResult>) -> bool {
    &&& r.len() == queries.len()
    &&& forall|i: int| 0 <= i < queries.len() ==> support_answer(s, queries[i], #[trigger] r[i])
}

/// Get the supported standards or addresses for an implementation given a
/// list of standard identifiers.
pub fn contract_supports(state: &State, queries: &Vec<String>) -> (r: Vec<SupportResult>)
    requires
        state.wf(),
    ensures
        support_answers(state@, queries@.map_values(|q: String| q@), r@),
{
    let mut response: Vec<SupportResult> = Vec::new();
    let mut i: usize = 0;
    while i < queries.len()
        invariant
            state.wf(),
            0 <= i <= queries@.len(),
            response@.len() == i,
            forall|j: int| 0 <= j < i ==> support_answer(state@, queries@[j]@, #[trigger] response@[j]),
        decreases queries@.len() - i,
    {
        let std_id = &queries[i];
        if supports_standard(std_id) {
            response.push(SupportResult::Support);
        } else {
            response.push(state.have_implementors(std_id));
        }
        i = i + 1;
    }
    response
}

/// Set the addresses for an implementation given a standard identifier and a
/// list of contract addresses, replacing those set before for it. The
/// parameter is only read once the sender is known to be the owner of the
/// contract instance.
///
/// It rejects if the sender is not the owner of the contract instance, or
/// with `ParseParams` if the parameter cannot be read.
pub fn contract_set_implementor(
    state: &mut State,
    sender: &Address,
    owner: &AccountAddress,
    parameter: &Vec<u8>,
) -> (r: Result<(), ContractError>)
    requires
        old(state).wf(),
    ensures
        final(state).wf(),
        *sender != Address::Account(*owner) ==> r == Err::<(), ContractError>(ContractError::Unauthorized)
            && final(state)@ == old(state)@,
        *sender == Address::Account(*owner) ==> match set_implementors_parameter(parameter@) {
            Some((id, implementors)) => r == Ok::<(), ContractError>(()) && final(state)@
                == old(state)@.set_implementors(id, implementors),
            None => r == Err::<(), ContractError>(parse_error()) && final(state)@ == old(state)@,
        },
        old(state)@.valid() ==> final(state)@.valid(),
{
    // Authorize the sender.
    if !sender.matches_account(owner) {
        return Err(ContractError::Unauthorized);
    }
    match set_implementors_params(parameter) {
        Ok(p) => {
            proof {
                if old(state)@.valid() {
                    lemma_registries_keep_valid(old(state)@, p.id@, p.implementors@, *owner);
                }
            }
            state.set_implementors(p.id, p.implementors);
            Ok(())
        },
        Err(e) => Err(e),
    }
}

/// `balanceOf` on its raw parameter: `ParseParams` if it cannot be read,
/// else the answers to its queries.
pub fn contract_balance_of_parameter(state: &State, parameter: &Vec<u8>) -> (r: Result<Vec<u8>, ContractError>)
    requires
        state.wf(),
    ensures
        match balance_of_parameter(parameter@) {
            Some(qs) => balance_answers(state@, qs, r),
            None => r == Err::<Vec<u8>, ContractError>(parse_error()),
        },
{
    let queries = balance_of_queries(parameter)?;
    contract_balance_of(state, &queries)
}

/// `operatorOf` on its raw parameter: `ParseParams` if it cannot be read,
/// else the answers to its queries.
pub fn contract_operator_of_parameter(state: &State, parameter: &Vec<u8>) -> (r: Result<Vec<bool>, ContractError>)
    requires
        state.wf(),
    ensures
        match operator_of_parameter(parameter@) {
            Some(qs) => r matches Ok(v) && operator_answers(state@, qs, v@),
            None => r == Err::<Vec<bool>, ContractError>(parse_error()),
        },
{
    let queries = operator_of_queries(parameter)?;
    Ok(contract_operator_of(state, &queries))
}

/// `tokenMetadata` on its raw parameter: `ParseParams` if it cannot be read,
/// else the answers to its queries.
pub fn contract_token_metadata_parameter(state: &State, parameter: &Vec<u8>) -> (r: Result<Vec<MetadataUrl>, ContractError>)
    requires
        state.wf(),
    ensures
        match token_metadata_parameter(parameter@) {
            Some(qs) => metadata_answers(state@, qs, r),
            None => r == Err::<Vec<MetadataUrl>, ContractError>(parse_error()),
        },
{
    let queries = token_metadata_queries(parameter)?;
    contract_token_metadata(state, &queries)
}

/// `supports` on its raw parameter: `ParseParams` if it cannot be read,
/// else the answers to its queries.
pub fn contract_supports_parameter(state: &State, parameter: &Vec<u8>) -> (r: Result<Vec<SupportResult>, ContractError>)
    requires
        state.wf(),
    ensures
        match supports_parameter(parameter@) {
            Some(qs) => r matches Ok(v) && support_answers(state@, qs, v@),
            None => r == Err::<Vec<SupportResult>, ContractError>(parse_error()),
        },
{
    let queries = supports_queries(parameter)?;
    Ok(contract_supports(state, &queries))
}

/// The receive hook that a transfer to `to` calls: none for an account; for
/// a contract, its named function with the transfer's token, amount, sender
/// and data.
pub open spec fn hook_of(t: Transfer, hook: Option<ReceiveHook>) -> bool {
    match t.to {
        Receiver::Account(_) => hook is None,
        Receiver::Contract(address, function) => match hook {
            Some(h) => {
                &&& h.address == address
                &&& h.function@ == function@
                &&& h.parameter.token_id == t.token_id
                &&& h.parameter.amount == t.amount
                &&& h.parameter.from == t.from
                &&& h.parameter.data@ == t.data@
            },
            None => false,
        },
    }
}

/// The transfer event of `t`.
pub open spec fn transfer_event(t: Transfer) -> Event {
    Event::Cis2Event(
        Cis2Event::Transfer {
            token_id: t.token_id,
            amount: t.amount,
            from: t.from,
            to: receiver_address(t.to),
        },
    )
}

/// Execute one transfer: update the state, then answer the `Transfer` event
/// to log and, when the receiver is a contract, the receive hook to invoke.
pub fn transfer(state: &mut State, transfer_entry: Transfer) -> (r: Result<TransferAction, ContractError>)
    requires
        old(state).wf(),
    ensures
        final(state).wf(),
        final(state)@ == old(state)@.transfer(
            transfer_entry.token_id,
            transfer_entry.amount,
            transfer_entry.from,
            receiver_address(transfer_entry.to),
        ),
        match r {
            Ok(action) => {
                &&& old(state)@.transfer_result(transfer_entry.token_id, transfer_entry.amount, transfer_entry.from) is Ok
                &&& action.event == transfer_event(transfer_entry)
                &&& hook_of(transfer_entry, action.hook)
            },
            Err(e) => old(state)@.transfer_result(transfer_entry.token_id, transfer_entry.amount, transfer_entry.from)
                == Err::<(), ContractError>(e),
        },
        old(state)@.valid() ==> final(state)@.valid(),
{
    proof {
        if old(state)@.valid() {
            lemma_transfer_keeps_valid(
                old(state)@,
                transfer_entry.token_id,
                transfer_entry.amount,
                transfer_entry.from,
                receiver_address(transfer_entry.to),
            );
        }
    }
    let to_address = transfer_entry.to.address();
    match state.transfer(&transfer_entry.token_id, transfer_entry.amount, &transfer_entry.from, &to_address) {
        Ok(()) => {},
        Err(e) => {
            return Err(e);
        },
    }
    let event = Event::Cis2Event(
        Cis2Event::Transfer {
            token_id: transfer_entry.token_id,
            amount: transfer_entry.amount,
            from: transfer_entry.from,
            to: to_address,
        },
    );
    let hook = match transfer_entry.to {
        Receiver::Contract(address, function) => Some(
            ReceiveHook {
                address,
                function,
                parameter: OnReceivingCis2Params {
                    token_id: transfer_entry.token_id,
                    amount: transfer_entry.amount,
                    from: transfer_entry.from,
                    data: transfer_entry.data,
                },
            },
        ),
        Receiver::Account(_) => None,
    };
    Ok(TransferAction { event, hook })
}

/// One transfer of a list of transfers requested by `sender`, in the order
/// of the list: the sender must be the owner of the tokens or an operator of
/// the owner, and then the transfer is executed. The caller logs the event
/// and invokes the receive hook before it takes the next transfer.
///
/// It rejects if the sender is not authorized, the `token_id` does not
/// exist, or the token is not owned by the `from`.
pub fn contract_transfer_step(state: &mut State, sender: &Address, transfer_entry: Transfer) -> (r: Result<
    TransferAction,
    ContractError,
>)
    requires
        old(state).wf(),
    ensures
        final(state).wf(),
        !may_transfer(old(state)@, *sender, transfer_entry.from) ==> r == Err::<TransferAction, ContractError>(
            ContractError::Unauthorized,
        ) && final(state)@ == old(state)@,
        may_transfer(old(state)@, *sender, transfer_entry.from) ==> {
            &&& final(state)@ == old(state)@.transfer(
                transfer_entry.token_id,
                transfer_entry.amount,
                transfer_entry.from,
                receiver_address(transfer_entry.to),
            )
            &&& match r {
                Ok(action) => {
                    &&& old(state)@.transfer_result(
                        transfer_entry.token_id,
                        transfer_entry.amount,
                        transfer_entry.from,
                    ) is Ok
                    &&& action.event == transfer_event(transfer_entry)
                    &&& hook_of(transfer_entry, action.hook)
                },
                Err(e) => old(state)@.transfer_result(
                    transfer_entry.token_id,
                    transfer_entry.amount,
                    transfer_entry.from,
                ) == Err::<(), ContractError>(e),
            }
        },
        old(state)@.valid() ==> final(state)@.valid(),
{
    // Authenticate the sender for this transfer.
    if !(same_address(&transfer_entry.from, sender) || state.is_operator(sender, &transfer_entry.from)) {
        return Err(ContractError::Unauthorized);
    }
    transfer(state, transfer_entry)
}

/// The state after `update` of `operator` for `owner`.
pub open spec fn apply_update(s: StateView, update: OperatorUpdate, owner: Address, operator: Address) -> StateView {
    match update {
        OperatorUpdate::Add => s.add_operator(owner, operator),
        OperatorUpdate::Remove => s.remove_operator(owner, operator),
    }
}

/// Add or remove `operator` as an operator of `sender`; answers the
/// `UpdateOperator` event to log.
pub fn update_operator(state: &mut State, update: OperatorUpdate, sender: Address, operator: Address) -> (r: Event)
    requires
        old(state).wf(),
    ensures
        final(state).wf(),
        final(state)@ == apply_update(old(state)@, update, sender, operator),
        r == Event::Cis2Event(Cis2Event::UpdateOperator { update, owner: sender, operator }),
        old(state)@.valid() ==> final(state)@.valid(),
{
    proof {
        if old(state)@.valid() {
            lemma_add_operator_keeps_valid(old(state)@, sender, operator);
            lemma_remove_operator_keeps_valid(old(state)@, sender, operator);
        }
    }
    match update {
        OperatorUpdate::Add => state.add_operator(&sender, &operator),
        OperatorUpdate::Remove => state.remove_operator(&sender, &operator),
    }
    Event::Cis2Event(Cis2Event::UpdateOperator { owner: sender, operator, update })
}

/// The state after the operator updates `updates`, in order, by `sender`.
pub open spec fn apply_updates(s: StateView, sender: Address, updates: Seq<UpdateOperator>) -> StateView
    decreases updates.len(),
{
    if updates.len() == 0 {
        s
    } else {
        let u = updates.last();
        apply_update(apply_updates(s, sender, updates.drop_last()), u.update, sender, u.operator)
    }
}

/// `events` are the `UpdateOperator` events of `updates` by `sender`, in
/// order.
pub open spec fn update_events(events: Seq<Event>, sender: Address, updates: Seq<UpdateOperator>) -> bool {
    &&& events.len() == updates.len()
    &&& forall|i: int|
        0 <= i < updates.len() ==> #[trigger] events[i] == Event::Cis2Event(
            Cis2Event::UpdateOperator { update: updates[i].update, owner: sender, operator: updates[i].operator },
        )
}

/// Enable or disable addresses as operators of the sender address; answers
/// an `UpdateOperator` event to log for each update, in order.
pub fn contract_update_operator(state: &mut State, sender: Address, params: &Vec<UpdateOperator>) -> (r: Vec<
    Event,
>)
    requires
        old(state).wf(),
    ensures
        final(state).wf(),
        final(state)@ == apply_updates(old(state)@, sender, params@),
        update_events(r@, sender, params@),
        old(state)@.valid() ==> final(state)@.valid(),
{
    let mut events: Vec<Event> = Vec::new();
    let mut i: usize = 0;
    while i < params.len()
        invariant
            state.wf(),
            0 <= i <= params@.len(),
            state@ == apply_updates(old(state)@, sender, params@.take(i as int)),
            events@.len() == i,
            forall|j: int|
                0 <= j < i ==> #[trigger] events@[j] == Event::Cis2Event(
                    Cis2Event::UpdateOperator {
                        update: params@[j].update,
                        owner: sender,
                        operator: params@[j].operator,
                    },
                ),
            old(state)@.valid() ==> state@.valid(),
        decreases params@.len() - i,
    {
        let param = params[i];
        let event = update_operator(state, param.update, sender, param.operator);
        events.push(event);
        assert(params@.take(i + 1).drop_last() =~= params@.take(i as int));
        i = i + 1;
    }
    assert(params@.take(params@.len() as int) =~= params@);
    events
}

/// `updateOperator` on its raw parameter by `sender`: `ParseParams` if it
/// cannot be read, leaving the state as it was; else the updates are applied
/// in order and their events answered.
pub fn contract_update_operator_parameter(state: &mut State, sender: Address, parameter: &Vec<u8>) -> (r: Result<
    Vec<Event>,
    ContractError,
>)
    requires
        old(state).wf(),
    ensures
        final(state).wf(),
        match update_operator_payload(parameter@) {
            Some(us) => r matches Ok(events) && update_events(events@, sender, us) && final(state)@ == apply_updates(
                old(state)@,
                sender,
                us,
            ),
            None => r == Err::<Vec<Event>, ContractError>(parse_error()) && final(state)@ == old(state)@,
        },
        old(state)@.valid() ==> final(state)@.valid(),
{
    let updates = update_operator_parameter(parameter)?;
    Ok(contract_update_operator(state, sender, &updates))
}

/// The bytes whose hash the signer of a permit message signs: the signer's
/// address, eight zero bytes, then the serialized message. The zero bytes
/// keep a signed message apart from a signed transaction, whose prefix holds
/// the account nonce, which is at least 1.
pub fn message_hash_input(signer: &AccountAddress, message_bytes: &Vec<u8>) -> (r: Vec<u8>)
    ensures
        r@ == signer.0@ + Seq::new(8, |i: int| 0u8) + message_bytes@,
{
    let mut r: Vec<u8> = Vec::new();
    let mut i: usize = 0;
    while i < 32
        invariant
            0 <= i <= 32,
            r@ == signer.0@.subrange(0, i as int),
        decreases 32 - i,
    {
        r.push(signer.0[i]);
        i = i + 1;
        assert(r@ =~= signer.0@.subrange(0, i as int));
    }
    let mut k: usize = 0;
    while k < 8
        invariant
            0 <= k <= 8,
            r@ == signer.0@ + Seq::new(k as nat, |i: int| 0u8),
        decreases 8 - k,
    {
        r.push(0u8);
        k = k + 1;
        assert(r@ =~= signer.0@ + Seq::new(k as nat, |i: int| 0u8));
    }
    let mut j: usize = 0;
    while j < message_bytes.len()
        invariant
            0 <= j <= message_bytes@.len(),
            r@ == signer.0@ + Seq::new(8, |i: int| 0u8) + message_bytes@.subrange(0, j as int),
        decreases message_bytes@.len() - j,
    {
        r.push(message_bytes[j]);
        j = j + 1;
        assert(r@ =~= signer.0@ + Seq::new(8, |i: int| 0u8) + message_bytes@.subrange(0, j as int));
    }
    assert(message_bytes@.subrange(0, message_bytes@.len() as int) =~= message_bytes@);
    r
}

/// The bytes whose hash `viewMessageHash` answers for a raw permit
/// parameter: the parameter starts with the signatures and the signer, and
/// the rest of it is the serialized message, which goes into
/// `message_hash_input`. The answer depends on the parameter alone; it
/// rejects with `ParseParams` if the front of the parameter cannot be read.
pub fn view_message_hash_input(parameter: &Vec<u8>) -> (r: Result<Vec<u8>, ContractError>)
    ensures
        match permit_signer_prefix(parameter@) {
            None => r == Err::<Vec<u8>, ContractError>(ContractError::Custom(CustomContractError::ParseParams)),
            Some((signer, n)) => r matches Ok(v) && v@ == signer.0@ + Seq::new(8, |i: int| 0u8)
                + parameter@.subrange(n as int, parameter@.len() as int),
        },
{
    match parse_permit_signer(parameter) {
        None => Err(ContractError::Custom(CustomContractError::ParseParams)),
        Some((signer, n)) => {
            let mut message: Vec<u8> = Vec::new();
            let mut i: usize = n;
            while i < parameter.len()
                invariant
                    n <= i <= parameter.len(),
                    message@ == parameter@.subrange(n as int, i as int),
                decreases parameter.len() - i,
            {
                message.push(parameter[i]);
                i = i + 1;
                assert(message@ =~= parameter@.subrange(n as int, i as int));
            }
            Ok(message_hash_input(&signer, &message))
        },
    }
}

/// The outcome of the first checks of a permit message for `contract` with
/// `nonce` and expiry `timestamp`: the signer's next nonce, or the error of
/// the first check that fails.
pub open spec fn message_check(
    s: StateView,
    signer: AccountAddress,
    contract: ContractAddress,
    nonce: u64,
    timestamp: u64,
    self_address: ContractAddress,
    slot_time: u64,
) -> Result<u64, ContractError> {
    if nonce != s.next_nonce(signer) {
        Err(ContractError::Custom(CustomContractError::NonceMismatch))
    } else if contract != self_address {
        Err(ContractError::Custom(CustomContractError::WrongContract))
    } else if !(timestamp > slot_time) {
        Err(ContractError::Custom(CustomContractError::Expired))
    } else {
        Ok(s.next_nonce(signer))
    }
}

/// The outcome of the first checks of a permit message: the signer's next
/// nonce, or the error of the first check that fails.
pub open spec fn permit_check(
    s: StateView,
    signer: AccountAddress,
    message: PermitMessage,
    self_address: ContractAddress,
    slot_time: u64,
) -> Result<u64, ContractError> {
    message_check(s, signer, message.contract_address, message.nonce, message.timestamp, self_address, slot_time)
}

/// The outcome of the signature check and of the entrypoint a permit
/// message names: the update it authorizes, or the error.
pub open spec fn authorize_result(
    signature_check: Result<bool, CheckAccountSignatureError>,
    entry_point: Seq<char>,
) -> Result<PermitAction, ContractError> {
    match signature_check {
        Err(CheckAccountSignatureError::MissingAccount) => Err(
            ContractError::Custom(CustomContractError::MissingAccount),
        ),
        Err(CheckAccountSignatureError::MalformedData) => Err(
            ContractError::Custom(CustomContractError::MalformedData),
        ),
        Ok(false) => Err(ContractError::Custom(CustomContractError::WrongSignature)),
        Ok(true) => if entry_point == "transfer"@ {
            Ok(PermitAction::Transfer)
        } else if entry_point == "updateOperator"@ {
            Ok(PermitAction::UpdateOperator)
        } else {
            Err(ContractError::Custom(CustomContractError::WrongEntryPoint))
        },
    }
}

/// The checks of a permit message after its hash was checked against the
/// signatures by the chain: the signature must be valid, which fails with
/// `MissingAccount` when the signer account does not exist and with
/// `MalformedData` when the signature data is malformed, and the message must
/// name an entrypoint that can be reached through a permit.
pub fn permit_authorize(signature_check: Result<bool, CheckAccountSignatureError>, entry_point: &String) -> (r:
    Result<PermitAction, ContractError>)
    ensures
        r == authorize_result(signature_check, entry_point@),
{
    match signature_check {
        Ok(valid_signature) => {
            if !valid_signature {
                return Err(ContractError::Custom(CustomContractError::WrongSignature));
            }
        },
        Err(CheckAccountSignatureError::MissingAccount) => {
            return Err(ContractError::Custom(CustomContractError::MissingAccount));
        },
        Err(CheckAccountSignatureError::MalformedData) => {
            return Err(ContractError::Custom(CustomContractError::MalformedData));
        },
    }
    if string_is(entry_point, "transfer") {
        Ok(PermitAction::Transfer)
    } else if string_is(entry_point, "updateOperator") {
        Ok(PermitAction::UpdateOperator)
    } else {
        Err(ContractError::Custom(CustomContractError::WrongEntryPoint))
    }
}

/// The first checks of a permit message signed by `signer`: it must carry
/// the signer's next nonce, name this contract instance and not have expired
/// at the block time `slot_time`. Answers the nonce. The chain's check of the
/// signatures is needed exactly when these checks pass; when they fail, the
/// permit is rejected with their error before any signature is looked at.
pub fn contract_permit_check(
    state: &State,
    signer: &AccountAddress,
    message: &PermitMessage,
    self_address: &ContractAddress,
    slot_time: u64,
) -> (r: Result<u64, ContractError>)
    requires
        state.wf(),
    ensures
        r == permit_check(state@, *signer, *message, *self_address, slot_time),
{
    let nonce = state.next_nonce(signer);
    if message.nonce != nonce {
        return Err(ContractError::Custom(CustomContractError::NonceMismatch));
    }
    if !(message.contract_address.index == self_address.index && message.contract_address.subindex
        == self_address.subindex) {
        return Err(ContractError::Custom(CustomContractError::WrongContract));
    }
    if !(message.timestamp > slot_time) {
        return Err(ContractError::Custom(CustomContractError::Expired));
    }
    Ok(nonce)
}

/// `permit` on its raw parameter, before any signature is looked at: the
/// signer, the message and its nonce, or `ParseParams` if the parameter
/// cannot be read, or the error of the first check of the message that
/// fails (see `contract_permit_check`).
pub fn contract_permit_request(
    state: &State,
    parameter: &Vec<u8>,
    self_address: &ContractAddress,
    slot_time: u64,
) -> (r: Result<(AccountAddress, PermitMessage, u64), ContractError>)
    requires
        state.wf(),
    ensures
        match permit_parameter(parameter@) {
            None => r == Err::<(AccountAddress, PermitMessage, u64), ContractError>(parse_error()),
            Some((signer, contract, nonce, timestamp, entry_point, payload)) => match message_check(
                state@,
                signer,
                contract,
                nonce,
                timestamp,
                *self_address,
                slot_time,
            ) {
                Err(e) => r == Err::<(AccountAddress, PermitMessage, u64), ContractError>(e),
                Ok(n) => r matches Ok((s, msg, k)) && s == signer && k == n && msg.contract_address == contract
                    && msg.nonce == nonce && msg.timestamp == timestamp && msg.entry_point@ == entry_point
                    && msg.payload@ == payload,
            },
        },
{
    let (signer, message) = permit_params(parameter)?;
    let nonce = contract_permit_check(state, &signer, &message, self_address, slot_time)?;
    Ok((signer, message, nonce))
}

/// What a permit leaves for the chain to do once its checks have passed and
/// its nonce is used: the transfers of its payload, to be executed in order
/// with `contract_transfer_step` as `sender`, which is the signer; the events
/// of the operator updates it already applied; then the `Nonce` event, to be
/// logged last.
#[derive(Debug, PartialEq, Eq, Clone)]
pub struct PermitPlan {
    pub sender: Address,
    pub transfers: Vec<Transfer>,
    pub events: Vec<Event>,
    pub nonce_event: Event,
}

/// `r` is what reading the payload of a permit message for `action` gives:
/// the named parse result, or `ParseParams` where it fails.
pub open spec fn payload_result(action: PermitAction, payload: Seq<u8>, r: Result<PermitPayload, ContractError>) -> bool {
    match action {
        PermitAction::Transfer => match transfer_payload(payload) {
            Some(ts) => r matches Ok(PermitPayload::Transfers(v)) && v@ == ts,
            None => r == Err::<PermitPayload, ContractError>(
                ContractError::Custom(CustomContractError::ParseParams),
            ),
        },
        PermitAction::UpdateOperator => match update_operator_payload(payload) {
            Some(us) => r matches Ok(PermitPayload::UpdateOperators(v)) && v@ == us,
            None => r == Err::<PermitPayload, ContractError>(
                ContractError::Custom(CustomContractError::ParseParams),
            ),
        },
    }
}

/// The plan of a permit whose checks passed, from state `s` to state `t`:
/// the signer is the sender; a transfer payload is left to execute; operator
/// updates are applied as the signer, with their events.
pub open spec fn permit_plan_outcome(
    s: StateView,
    t: StateView,
    signer: AccountAddress,
    nonce: u64,
    action: PermitAction,
    payload: Seq<u8>,
    plan: PermitPlan,
) -> bool {
    &&& plan.sender == Address::Account(signer)
    &&& plan.nonce_event == Event::Nonce(NonceEvent { account: signer, nonce })
    &&& match action {
        PermitAction::Transfer => {
            &&& transfer_payload(payload) == Some(plan.transfers@)
            &&& plan.events@.len() == 0
            &&& t == s.use_nonce(signer)
        },
        PermitAction::UpdateOperator => {
            &&& update_operator_payload(payload) is Some
            &&& plan.transfers@.len() == 0
            &&& t == apply_updates(s.use_nonce(signer), Address::Account(signer), update_operator_payload(payload)->0)
            &&& update_events(plan.events@, Address::Account(signer), update_operator_payload(payload)->0)
        },
    }
}

/// Executes the decisions of a permit: a message signed by `signer` may
/// apply transfers or operator updates as if the signer had sent them.
/// `signature_check` is the chain's check of the signatures against the hash
/// of the message (see `view_message_hash_input`); it is only asked for once
/// `contract_permit_check` has passed, and is not looked at otherwise.
///
/// It rejects, in this order, if the message does not carry the signer's next
/// nonce, names another contract instance, has expired at the block time
/// `slot_time`, the signature check fails, the entrypoint cannot be reached
/// through a permit, or the payload cannot be parsed. On success the nonce is
/// used up and operator updates are applied as the signer; the plan holds
/// the transfers to execute as the signer and the `Nonce` event to log last.
pub fn contract_permit(
    state: &mut State,
    signer: &AccountAddress,
    message: &PermitMessage,
    self_address: &ContractAddress,
    slot_time: u64,
    signature_check: Result<bool, CheckAccountSignatureError>,
) -> (r: Result<PermitPlan, ContractError>)
    requires
        old(state).wf(),
    ensures
        final(state).wf(),
        match permit_check(old(state)@, *signer, *message, *self_address, slot_time) {
            Err(e) => r == Err::<PermitPlan, ContractError>(e) && final(state)@ == old(state)@,
            Ok(nonce) => match authorize_result(signature_check, message.entry_point@) {
                Err(e) => r == Err::<PermitPlan, ContractError>(e) && final(state)@ == old(state)@,
                Ok(action) => match r {
                    Ok(plan) => permit_plan_outcome(
                        old(state)@,
                        final(state)@,
                        *signer,
                        nonce,
                        action,
                        message.payload@,
                        plan,
                    ),
                    Err(e) => payload_result(action, message.payload@, Err(e)) && final(state)@
                        == old(state)@,
                },
            },
        },
        old(state)@.valid() ==> final(state)@.valid(),
{
    proof {
        if old(state)@.valid() {
            lemma_registries_keep_valid(old(state)@, Seq::empty(), Seq::empty(), *signer);
        }
    }
    let nonce = match contract_permit_check(state, signer, message, self_address, slot_time) {
        Ok(n) => n,
        Err(e) => {
            return Err(e);
        },
    };
    let action = match permit_authorize(signature_check, &message.entry_point) {
        Ok(action) => action,
        Err(e) => {
            return Err(e);
        },
    };
    let payload = match permit_payload(action, &message.payload) {
        Ok(payload) => payload,
        Err(e) => {
            return Err(e);
        },
    };
    let used = state.use_nonce(signer);
    let sender = Address::Account(*signer);
    let nonce_event = Event::Nonce(NonceEvent { account: *signer, nonce: used });
    match payload {
        PermitPayload::Transfers(transfers) => Ok(PermitPlan { sender, transfers, events: Vec::new(), nonce_event }),
        PermitPayload::UpdateOperators(updates) => {
            let events = contract_update_operator(state, sender, &updates);
            Ok(PermitPlan { sender, transfers: Vec::new(), events, nonce_event })
        },
    }
}

/// `r` answers, for each of the entrypoints `queries`, whether it can be
/// reached through a permit message.
pub open spec fn permit_support_answers(queries: Seq<Seq<char>>, r: Seq<SupportResult>) -> bool {
    &&& r.len() == queries.len()
    &&& forall|i: int|
        0 <= i < queries.len() ==> #[trigger] r[i] == (if is_permit_entrypoint(queries[i]) {
            SupportResult::Support
        } else {
            SupportResult::NoSupport
        })
}

/// Answers, for each queried entrypoint, whether it can be reached through a
/// permit message.
pub fn contract_supports_permit(queries: &Vec<String>) -> (r: Vec<SupportResult>)
    ensures
        permit_support_answers(queries@.map_values(|q: String| q@), r@),
{
    let mut response: Vec<SupportResult> = Vec::new();
    let mut i: usize = 0;
    while i < queries.len()
        invariant
            0 <= i <= queries@.len(),
            response@.len() == i,
            forall|j: int|
                0 <= j < i ==> #[trigger] response@[j] == (if is_permit_entrypoint(queries@[j]@) {
                    SupportResult::Support
                } else {
                    SupportResult::NoSupport
                }),
        decreases queries@.len() - i,
    {
        if supports_permit_entrypoint(&queries[i]) {
            response.push(SupportResult::Support);
        } else {
            response.push(SupportResult::NoSupport);
        }
        i = i + 1;
    }
    response
}

} // verus!
