use techfiesta_minter::address::{AccountAddress, Address, ContractAddress};
use techfiesta_minter::contract::{
    contract_balance_of, contract_init, contract_mint, contract_operator_of, contract_set_implementor,
    contract_supports, contract_supports_permit, contract_token_metadata, contract_transfer_step,
    contract_update_operator, contract_permit, message_hash_input, permit_authorize, transfer,
    update_operator, view_message_hash_input, MintReport, contract_balance_of_parameter,
    contract_operator_of_parameter, contract_token_metadata_parameter, contract_supports_parameter,
    contract_update_operator_parameter, contract_permit_request,
};
use techfiesta_minter::errors::{
    CallContractError, CheckAccountSignatureError, ContractError, CustomContractError, LogError, ParseError,
};
use techfiesta_minter::metadata::build_token_metadata_url;
use techfiesta_minter::payload::{permit_payload, PermitPayload};
use techfiesta_minter::parameter::{supports_permit_queries, transfer_parameter};
use techfiesta_minter::state::{contract_view, State};
use techfiesta_minter::types::{
    BalanceOfQuery, Cis2Event, Event, MetadataUrl, MintParams, NonceEvent, OperatorOfQuery, OperatorUpdate,
    PermitAction, PermitMessage, Receiver, SetImplementorsParams, SupportResult, Transfer, UpdateOperator,
};

fn account(b: u8) -> AccountAddress {
    AccountAddress([b; 32])
}

fn acc(b: u8) -> Address {
    Address::Account(account(b))
}

fn contract(index: u64) -> ContractAddress {
    ContractAddress { index, subindex: 0 }
}

fn mint_params(owner: Address, tokens: Vec<u32>) -> MintParams {
    MintParams { owner, token_metadata_base_url: "https://example.com/meta".to_string(), tokens: tokens.into_iter().collect() }
}

/// The account that owns the contract instance.
fn instance_owner() -> AccountAddress {
    account(100)
}

fn chain_address(a: Address) -> concordium_std::Address {
    match a {
        Address::Account(x) => concordium_std::Address::Account(concordium_std::AccountAddress(x.0)),
        Address::Contract(c) => concordium_std::Address::Contract(chain_contract(c)),
    }
}

fn chain_contract(c: ContractAddress) -> concordium_std::ContractAddress {
    concordium_std::ContractAddress { index: c.index, subindex: c.subindex }
}

/// The bytes of a `mint` parameter: owner, base URL, then the token ids with
/// a one-byte count.
fn mint_bytes(params: &MintParams) -> Vec<u8> {
    let mut bytes = concordium_std::to_bytes(&(chain_address(params.owner), params.token_metadata_base_url.clone()));
    bytes.push(params.tokens.len() as u8);
    for t in params.tokens.iter() {
        bytes.extend(concordium_std::to_bytes(&concordium_cis2::TokenIdU32(*t)));
    }
    bytes
}

/// The bytes of a `setImplementors` parameter.
fn implementors_bytes(params: &SetImplementorsParams) -> Vec<u8> {
    let id = concordium_cis2::StandardIdentifierOwned::new_unchecked(params.id.clone());
    let implementors: Vec<concordium_std::ContractAddress> = params.implementors.iter().map(|c| chain_contract(*c)).collect();
    concordium_std::to_bytes(&(id, implementors))
}

fn mint(state: &mut State, params: MintParams) -> Result<Vec<Event>, ContractError> {
    let report = contract_mint(state, &Address::Account(instance_owner()), &instance_owner(), &mint_bytes(&params));
    report.result.map(|_| report.events)
}

fn minted_state(owner: Address, tokens: Vec<u32>) -> State {
    let mut state = contract_init();
    mint(&mut state, mint_params(owner, tokens)).unwrap();
    state
}

fn account_transfer(token_id: u32, amount: u8, from: Address, to: AccountAddress) -> Transfer {
    Transfer { token_id, amount, from, to: Receiver::Account(to), data: vec![] }
}

fn balance(state: &State, token_id: u32, address: Address) -> u8 {
    contract_balance_of(state, &vec![BalanceOfQuery { token_id, address }]).unwrap()[0]
}

#[test]
fn token_id_text_is_little_endian_upper_hex() {
    assert_eq!(build_token_metadata_url(1, "base".to_string()), "base01000000");
    assert_eq!(build_token_metadata_url(0x12345678, "u".to_string()), "u78563412");
    assert_eq!(build_token_metadata_url(255, String::new()), "FF000000");
    assert_eq!(build_token_metadata_url(0xABCDEF01, "x".to_string()), "x01EFCDAB");
}

#[test]
fn init_is_empty() {
    let state = contract_init();
    let view = contract_view(&state);
    assert!(view.state.is_empty());
    assert!(view.all_tokens.is_empty());
    assert!(view.nonces_registry.is_empty());
    assert!(view.implementors.is_empty());
}

#[test]
fn mint_logs_mint_and_metadata_events() {
    let mut state = contract_init();
    let events = mint(&mut state, mint_params(acc(1), vec![1, 2])).unwrap();
    assert_eq!(events.len(), 4);
    assert_eq!(events[0], Event::Cis2Event(Cis2Event::Mint { token_id: 1, amount: 1, owner: acc(1) }));
    assert_eq!(
        events[1],
        Event::Cis2Event(Cis2Event::TokenMetadata {
            token_id: 1,
            metadata_url: MetadataUrl { url: "https://example.com/meta01000000".to_string(), hash: None },
        })
    );
    assert_eq!(events[2], Event::Cis2Event(Cis2Event::Mint { token_id: 2, amount: 1, owner: acc(1) }));
    assert_eq!(balance(&state, 1, acc(1)), 1);
    assert_eq!(balance(&state, 2, acc(1)), 1);
    assert_eq!(balance(&state, 2, acc(2)), 0);
}

#[test]
fn mint_of_existing_token_is_rejected_and_changes_nothing() {
    let mut state = minted_state(acc(1), vec![5]);
    let before = contract_view(&state);
    let r = mint(&mut state, mint_params(acc(2), vec![6, 5]));
    assert_eq!(r, Err(ContractError::Custom(CustomContractError::TokenIdAlreadyExists)));
    assert_eq!(contract_view(&state), before);
    assert_eq!(contract_balance_of(&state, &vec![BalanceOfQuery { token_id: 6, address: acc(2) }]), Err(ContractError::InvalidTokenId));
}

#[test]
fn mint_reports_the_events_before_an_existing_token() {
    let mut state = minted_state(acc(1), vec![5]);
    let before = contract_view(&state);
    let report = contract_mint(
        &mut state,
        &Address::Account(instance_owner()),
        &instance_owner(),
        &mint_bytes(&mint_params(acc(2), vec![9, 3, 5])),
    );
    assert_eq!(report.result, Err(ContractError::Custom(CustomContractError::TokenIdAlreadyExists)));
    assert_eq!(report.events.len(), 2);
    assert_eq!(report.events[0], Event::Cis2Event(Cis2Event::Mint { token_id: 3, amount: 1, owner: acc(2) }));
    assert_eq!(contract_view(&state), before);
}

#[test]
fn mint_mints_in_increasing_order() {
    let mut state = contract_init();
    let events = mint(&mut state, mint_params(acc(2), vec![7, 3, 5])).unwrap();
    let minted: Vec<u32> = events
        .iter()
        .filter_map(|e| match e {
            Event::Cis2Event(Cis2Event::Mint { token_id, .. }) => Some(*token_id),
            _ => None,
        })
        .collect();
    assert_eq!(minted, vec![3, 5, 7]);
}

#[test]
fn balance_of_unknown_token_is_invalid_token_id() {
    let state = minted_state(acc(1), vec![1]);
    let r = contract_balance_of(
        &state,
        &vec![BalanceOfQuery { token_id: 1, address: acc(1) }, BalanceOfQuery { token_id: 9, address: acc(1) }],
    );
    assert_eq!(r, Err(ContractError::InvalidTokenId));
}

#[test]
fn owner_transfers_token() {
    let mut state = minted_state(acc(1), vec![1]);
    let action = contract_transfer_step(&mut state, &acc(1), account_transfer(1, 1, acc(1), account(2))).unwrap();
    assert_eq!(
        action.event,
        Event::Cis2Event(Cis2Event::Transfer { token_id: 1, amount: 1, from: acc(1), to: acc(2) })
    );
    assert!(action.hook.is_none());
    assert_eq!(balance(&state, 1, acc(1)), 0);
    assert_eq!(balance(&state, 1, acc(2)), 1);
}

#[test]
fn transfer_to_contract_asks_for_the_receive_hook() {
    let mut state = minted_state(acc(1), vec![3]);
    let t = Transfer {
        token_id: 3,
        amount: 1,
        from: acc(1),
        to: Receiver::Contract(contract(9), "onReceivingCIS2".to_string()),
        data: vec![1, 2, 3],
    };
    let action = transfer(&mut state, t).unwrap();
    let hook = action.hook.unwrap();
    assert_eq!(hook.address, contract(9));
    assert_eq!(hook.function, "onReceivingCIS2");
    assert_eq!(hook.parameter.token_id, 3);
    assert_eq!(hook.parameter.amount, 1);
    assert_eq!(hook.parameter.from, acc(1));
    assert_eq!(hook.parameter.data, vec![1, 2, 3]);
    assert_eq!(balance(&state, 3, Address::Contract(contract(9))), 1);
}

#[test]
fn zero_transfer_changes_nothing() {
    let mut state = minted_state(acc(1), vec![1]);
    let before = contract_view(&state);
    let action = transfer(&mut state, account_transfer(1, 0, acc(1), account(2))).unwrap();
    assert_eq!(
        action.event,
        Event::Cis2Event(Cis2Event::Transfer { token_id: 1, amount: 0, from: acc(1), to: acc(2) })
    );
    assert_eq!(contract_view(&state), before);
}

#[test]
fn transfer_errors() {
    let mut state = minted_state(acc(1), vec![1]);
    assert_eq!(
        transfer(&mut state, account_transfer(2, 1, acc(1), account(2))).unwrap_err(),
        ContractError::InvalidTokenId
    );
    assert_eq!(
        transfer(&mut state, account_transfer(1, 2, acc(1), account(2))).unwrap_err(),
        ContractError::InsufficientFunds
    );
    assert_eq!(
        transfer(&mut state, account_transfer(1, 1, acc(3), account(2))).unwrap_err(),
        ContractError::InsufficientFunds
    );
    assert_eq!(balance(&state, 1, acc(1)), 1);
}

#[test]
fn stranger_is_unauthorized_operator_is_not() {
    let mut state = minted_state(acc(1), vec![1]);
    let r = contract_transfer_step(&mut state, &acc(5), account_transfer(1, 1, acc(1), account(5)));
    assert_eq!(r.unwrap_err(), ContractError::Unauthorized);
    assert_eq!(balance(&state, 1, acc(1)), 1);
    let event = update_operator(&mut state, OperatorUpdate::Add, acc(1), acc(5));
    assert_eq!(
        event,
        Event::Cis2Event(Cis2Event::UpdateOperator { update: OperatorUpdate::Add, owner: acc(1), operator: acc(5) })
    );
    contract_transfer_step(&mut state, &acc(5), account_transfer(1, 1, acc(1), account(5))).unwrap();
    assert_eq!(balance(&state, 1, acc(5)), 1);
}

#[test]
fn operator_add_and_remove() {
    let mut state = contract_init();
    let q = vec![OperatorOfQuery { owner: acc(1), address: acc(2) }];
    assert_eq!(contract_operator_of(&state, &q), vec![false]);
    let events = contract_update_operator(
        &mut state,
        acc(1),
        &vec![
            UpdateOperator { update: OperatorUpdate::Add, operator: acc(2) },
            UpdateOperator { update: OperatorUpdate::Add, operator: acc(2) },
        ],
    );
    assert_eq!(events.len(), 2);
    assert_eq!(contract_operator_of(&state, &q), vec![true]);
    contract_update_operator(&mut state, acc(1), &vec![UpdateOperator { update: OperatorUpdate::Remove, operator: acc(2) }]);
    assert_eq!(contract_operator_of(&state, &q), vec![false]);
    // Removing an operator of an address without a record is accepted.
    update_operator(&mut state, OperatorUpdate::Remove, acc(7), acc(2));
    assert_eq!(contract_view(&state).state.len(), 1);
}

#[test]
fn token_metadata_answers_url_or_invalid_token() {
    let state = minted_state(acc(1), vec![1, 2]);
    let urls = contract_token_metadata(&state, &vec![2, 1]).unwrap();
    assert_eq!(urls[0].url, "https://example.com/meta02000000");
    assert_eq!(urls[1].url, "https://example.com/meta01000000");
    assert_eq!(urls[0].hash, None);
    assert_eq!(contract_token_metadata(&state, &vec![1, 3]), Err(ContractError::InvalidTokenId));
}

#[test]
fn supports_own_standards_and_implementors() {
    let mut state = contract_init();
    let queries = vec!["CIS-0".to_string(), "CIS-2".to_string(), "CIS-1".to_string()];
    assert_eq!(
        contract_supports(&state, &queries),
        vec![SupportResult::Support, SupportResult::Support, SupportResult::NoSupport]
    );
    let params = SetImplementorsParams { id: "CIS-1".to_string(), implementors: vec![contract(4), contract(5)] };
    assert_eq!(
        contract_set_implementor(&mut state, &acc(2), &account(1), &implementors_bytes(&params)),
        Err(ContractError::Unauthorized)
    );
    assert_eq!(contract_supports(&state, &queries)[2], SupportResult::NoSupport);
    assert_eq!(
        contract_set_implementor(&mut state, &acc(1), &account(1), &vec![]),
        Err(ContractError::Custom(CustomContractError::ParseParams))
    );
    assert_eq!(contract_set_implementor(&mut state, &acc(1), &account(1), &implementors_bytes(&params)), Ok(()));
    assert_eq!(
        contract_supports(&state, &queries)[2],
        SupportResult::SupportBy(vec![contract(4), contract(5)])
    );
}

#[test]
fn supports_permit_entrypoints() {
    let r = contract_supports_permit(&vec!["transfer".to_string(), "updateOperator".to_string(), "mint".to_string()]);
    assert_eq!(r, vec![SupportResult::Support, SupportResult::Support, SupportResult::NoSupport]);
}

fn message(nonce: u64, timestamp: u64, entry_point: &str) -> PermitMessage {
    let payload = if entry_point == "updateOperator" {
        concordium_std::to_bytes(&concordium_cis2::UpdateOperatorParams(vec![]))
    } else {
        concordium_std::to_bytes(&concordium_cis2::TransferParams::<
            concordium_cis2::TokenIdU32,
            concordium_cis2::TokenAmountU8,
        >(vec![]))
    };
    PermitMessage { contract_address: contract(1), nonce, timestamp, entry_point: entry_point.to_string(), payload }
}

fn check_message(state: &mut State, signer: &AccountAddress, m: &PermitMessage, slot_time: u64) -> Result<u64, ContractError> {
    contract_permit(state, signer, m, &contract(1), slot_time, Ok(true)).map(|plan| match plan.nonce_event {
        Event::Nonce(n) => n.nonce,
        _ => panic!("the last event of a permit is its nonce"),
    })
}

#[test]
fn permit_nonce_is_used_once() {
    let mut state = contract_init();
    let signer = account(3);
    let m = message(0, 100, "transfer");
    assert_eq!(check_message(&mut state, &signer, &m, 50), Ok(0));
    assert_eq!(contract_view(&state).nonces_registry, vec![(signer, 1)]);
    // Replaying the same message fails.
    assert_eq!(check_message(&mut state, &signer, &m, 50), Err(ContractError::Custom(CustomContractError::NonceMismatch)));
    assert_eq!(check_message(&mut state, &signer, &message(1, 100, "updateOperator"), 50), Ok(1));
}

#[test]
fn permit_message_errors() {
    let mut state = contract_init();
    let signer = account(3);
    assert_eq!(
        contract_permit(&mut state, &signer, &message(0, 100, "transfer"), &contract(2), 50, Ok(true)).unwrap_err(),
        ContractError::Custom(CustomContractError::WrongContract)
    );
    assert_eq!(
        check_message(&mut state, &signer, &message(0, 50, "transfer"), 50),
        Err(ContractError::Custom(CustomContractError::Expired))
    );
    assert_eq!(
        contract_permit(&mut state, &signer, &message(0, 100, "transfer"), &contract(1), 50, Ok(false)).unwrap_err(),
        ContractError::Custom(CustomContractError::WrongSignature)
    );
    assert_eq!(
        check_message(&mut state, &signer, &message(0, 100, "mint"), 50),
        Err(ContractError::Custom(CustomContractError::WrongEntryPoint))
    );
    let mut bad = message(0, 100, "transfer");
    bad.payload = vec![5];
    assert_eq!(check_message(&mut state, &signer, &bad, 50), Err(ContractError::Custom(CustomContractError::ParseParams)));
    assert!(contract_view(&state).nonces_registry.is_empty());
}

#[test]
fn permit_payload_carries_the_signed_transfers() {
    let chain_transfer = concordium_cis2::Transfer {
        token_id: concordium_cis2::TokenIdU32(7),
        amount: concordium_cis2::TokenAmountU8(1),
        from: concordium_std::Address::Account(concordium_std::AccountAddress([1; 32])),
        to: concordium_cis2::Receiver::Contract(
            concordium_std::ContractAddress { index: 9, subindex: 0 },
            concordium_std::OwnedEntrypointName::new_unchecked("onReceivingCIS2".to_string()),
        ),
        data: concordium_cis2::AdditionalData::from(vec![4, 5]),
    };
    let bytes = concordium_std::to_bytes(&concordium_cis2::TransferParams(vec![chain_transfer]));
    let payload = permit_payload(PermitAction::Transfer, &bytes).unwrap();
    assert_eq!(
        payload,
        PermitPayload::Transfers(vec![Transfer {
            token_id: 7,
            amount: 1,
            from: acc(1),
            to: Receiver::Contract(contract(9), "onReceivingCIS2".to_string()),
            data: vec![4, 5],
        }])
    );
    let update = concordium_cis2::UpdateOperator {
        update: concordium_cis2::OperatorUpdate::Add,
        operator: concordium_std::Address::Contract(concordium_std::ContractAddress { index: 3, subindex: 1 }),
    };
    let bytes = concordium_std::to_bytes(&concordium_cis2::UpdateOperatorParams(vec![update]));
    assert_eq!(
        permit_payload(PermitAction::UpdateOperator, &bytes),
        Ok(PermitPayload::UpdateOperators(vec![UpdateOperator {
            update: OperatorUpdate::Add,
            operator: Address::Contract(ContractAddress { index: 3, subindex: 1 }),
        }]))
    );
    assert_eq!(
        permit_payload(PermitAction::UpdateOperator, &vec![1]),
        Err(ContractError::Custom(CustomContractError::ParseParams))
    );
}

#[test]
fn permit_authorization() {
    let t = "transfer".to_string();
    let u = "updateOperator".to_string();
    let other = "mint".to_string();
    assert_eq!(permit_authorize(Ok(true), &t), Ok(PermitAction::Transfer));
    assert_eq!(permit_authorize(Ok(true), &u), Ok(PermitAction::UpdateOperator));
    assert_eq!(
        permit_authorize(Ok(true), &other),
        Err(ContractError::Custom(CustomContractError::WrongEntryPoint))
    );
    assert_eq!(permit_authorize(Ok(false), &t), Err(ContractError::Custom(CustomContractError::WrongSignature)));
    assert_eq!(
        permit_authorize(Err(CheckAccountSignatureError::MissingAccount), &t),
        Err(ContractError::Custom(CustomContractError::MissingAccount))
    );
    assert_eq!(
        permit_authorize(Err(CheckAccountSignatureError::MalformedData), &t),
        Err(ContractError::Custom(CustomContractError::MalformedData))
    );
}

#[test]
fn mint_by_other_than_the_owner_is_unauthorized() {
    let mut state = contract_init();
    let r = contract_mint(&mut state, &acc(1), &instance_owner(), &mint_bytes(&mint_params(acc(1), vec![1])));
    assert_eq!(r, MintReport { events: vec![], result: Err(ContractError::Unauthorized) });
    assert!(contract_view(&state).all_tokens.is_empty());
    let r = contract_mint(
        &mut state,
        &Address::Account(instance_owner()),
        &instance_owner(),
        &vec![7],
    );
    assert_eq!(r, MintReport { events: vec![], result: Err(ContractError::Custom(CustomContractError::ParseParams)) });
}

#[test]
fn signed_bytes_are_signer_zeros_message() {
    let r = message_hash_input(&account(9), &vec![1, 2]);
    let mut expected = vec![9u8; 32];
    expected.extend_from_slice(&[0u8; 8]);
    expected.extend_from_slice(&[1, 2]);
    assert_eq!(r, expected);
}

#[test]
fn view_message_hash_input_reads_signer_then_message() {
    let signatures = concordium_std::AccountSignatures { sigs: std::collections::BTreeMap::new() };
    let mut parameter = concordium_std::to_bytes(&(signatures, concordium_std::AccountAddress([9u8; 32])));
    parameter.extend_from_slice(&[5, 6, 7]);
    let mut expected = vec![9u8; 32];
    expected.extend_from_slice(&[0u8; 8]);
    expected.extend_from_slice(&[5, 6, 7]);
    assert_eq!(view_message_hash_input(&parameter), Ok(expected));
    assert_eq!(
        view_message_hash_input(&vec![1]),
        Err(ContractError::Custom(CustomContractError::ParseParams))
    );
}

#[test]
fn error_conversions() {
    assert_eq!(CustomContractError::from(LogError::Full), CustomContractError::LogFull);
    assert_eq!(CustomContractError::from(LogError::Malformed), CustomContractError::LogMalformed);
    assert_eq!(CustomContractError::from(CallContractError::Trap), CustomContractError::InvokeContractError);
    assert_eq!(CustomContractError::from(ParseError), CustomContractError::ParseParams);
    assert_eq!(
        ContractError::from(CustomContractError::MissingAccount),
        ContractError::Custom(CustomContractError::MissingAccount)
    );
}

#[test]
fn view_restores_the_state() {
    let mut state = minted_state(acc(1), vec![1, 2, 3]);
    update_operator(&mut state, OperatorUpdate::Add, acc(1), acc(4));
    check_message(&mut state, &account(6), &message(0, 10, "transfer"), 0).unwrap();
    contract_set_implementor(
        &mut state,
        &acc(1),
        &account(1),
        &implementors_bytes(&SetImplementorsParams { id: "CIS-3".to_string(), implementors: vec![contract(2)] }),
    )
    .unwrap();
    let snap = contract_view(&state);
    assert_eq!(snap.token_metadata_urls.len(), 3);
    let restored = State::restore(&snap);
    assert_eq!(contract_view(&restored), snap);
    assert_eq!(contract_token_metadata(&restored, &vec![3]).unwrap()[0].url, "https://example.com/meta03000000");
}

#[test]
fn at_most_one_owner_per_token() {
    let mut state = minted_state(acc(1), vec![1]);
    transfer(&mut state, account_transfer(1, 1, acc(1), account(2))).unwrap();
    let owners: u32 = [acc(1), acc(2), acc(3)].iter().map(|a| balance(&state, 1, *a) as u32).sum();
    assert_eq!(owners, 1);
    let n = NonceEvent { account: account(1), nonce: 0 };
    assert_eq!(Event::Nonce(n), Event::Nonce(NonceEvent { account: account(1), nonce: 0 }));
}

#[test]
fn nonce_wraps_at_the_largest_value() {
    let snap = techfiesta_minter::types::ViewState {
        state: vec![],
        all_tokens: vec![],
        nonces_registry: vec![(account(3), u64::MAX)],
        implementors: vec![],
        token_metadata_urls: vec![],
    };
    let mut state = State::restore(&snap);
    let m = message(u64::MAX, 100, "transfer");
    assert_eq!(check_message(&mut state, &account(3), &m, 50), Ok(u64::MAX));
    assert_eq!(contract_view(&state).nonces_registry, vec![(account(3), 0)]);
}

#[test]
fn restore_keeps_the_later_of_two_entries() {
    let snap = techfiesta_minter::types::ViewState {
        state: vec![],
        all_tokens: vec![1, 1],
        nonces_registry: vec![(account(3), 4), (account(3), 7)],
        implementors: vec![],
        token_metadata_urls: vec![(1, "a".to_string()), (1, "b".to_string())],
    };
    let state = State::restore(&snap);
    let view = contract_view(&state);
    assert_eq!(view.nonces_registry, vec![(account(3), 7)]);
    assert_eq!(view.all_tokens, vec![1]);
    assert_eq!(contract_token_metadata(&state, &vec![1]).unwrap()[0].url, "b01000000");
}

#[test]
fn permit_replayed_after_other_calls_still_fails() {
    let mut state = minted_state(acc(1), vec![1]);
    let signer = account(3);
    let m = message(0, 100, "transfer");
    assert_eq!(check_message(&mut state, &signer, &m, 50), Ok(0));
    mint(&mut state, mint_params(acc(3), vec![2])).unwrap();
    contract_transfer_step(&mut state, &acc(1), account_transfer(1, 1, acc(1), account(2))).unwrap();
    update_operator(&mut state, OperatorUpdate::Add, acc(2), acc(5));
    assert_eq!(check_message(&mut state, &account(4), &message(0, 100, "transfer"), 60), Ok(0));
    let params = SetImplementorsParams { id: "CIS-3".to_string(), implementors: vec![contract(9)] };
    contract_set_implementor(&mut state, &acc(1), &account(1), &implementors_bytes(&params)).unwrap();
    assert_eq!(
        check_message(&mut state, &signer, &m, 70),
        Err(ContractError::Custom(CustomContractError::NonceMismatch))
    );
}

#[test]
fn implementors_stay_after_other_calls() {
    let mut state = contract_init();
    let set = |id: &str, v: Vec<ContractAddress>| SetImplementorsParams { id: id.to_string(), implementors: v };
    contract_set_implementor(&mut state, &acc(1), &account(1), &implementors_bytes(&set("CIS-1", vec![contract(4)]))).unwrap();
    mint(&mut state, mint_params(acc(2), vec![1, 2])).unwrap();
    contract_transfer_step(&mut state, &acc(2), account_transfer(2, 1, acc(2), account(6))).unwrap();
    contract_set_implementor(&mut state, &acc(1), &account(1), &implementors_bytes(&set("CIS-3", vec![contract(5)]))).unwrap();
    assert_eq!(check_message(&mut state, &account(3), &message(0, 100, "transfer"), 50), Ok(0));
    assert_eq!(
        contract_supports(&state, &vec!["CIS-1".to_string()]),
        vec![SupportResult::SupportBy(vec![contract(4)])]
    );
}

#[test]
fn minted_url_stays_after_other_calls() {
    let mut state = minted_state(acc(1), vec![1]);
    let logged = build_token_metadata_url(1, "https://example.com/meta".to_string());
    contract_transfer_step(&mut state, &acc(1), account_transfer(1, 1, acc(1), account(2))).unwrap();
    let other = MintParams {
        owner: acc(2),
        token_metadata_base_url: "https://other.org/".to_string(),
        tokens: vec![2].into_iter().collect(),
    };
    mint(&mut state, other).unwrap();
    update_operator(&mut state, OperatorUpdate::Add, acc(2), acc(5));
    let urls = contract_token_metadata(&state, &vec![1, 2]).unwrap();
    assert_eq!(urls[0].url, logged);
    assert_eq!(urls[0].url, "https://example.com/meta01000000");
    assert_eq!(urls[1].url, "https://other.org/02000000");
}

fn parse_error() -> ContractError {
    ContractError::Custom(CustomContractError::ParseParams)
}

#[test]
fn parameters_that_cannot_be_read_answer_parse_params() {
    let mut state = minted_state(acc(1), vec![1]);
    let bad = vec![1u8];
    assert_eq!(contract_balance_of_parameter(&state, &bad), Err(parse_error()));
    assert_eq!(contract_operator_of_parameter(&state, &bad), Err(parse_error()));
    assert_eq!(contract_token_metadata_parameter(&state, &bad), Err(parse_error()));
    assert_eq!(contract_supports_parameter(&state, &bad), Err(parse_error()));
    assert_eq!(supports_permit_queries(&bad), Err(parse_error()));
    assert_eq!(transfer_parameter(&bad), Err(parse_error()));
    assert_eq!(contract_update_operator_parameter(&mut state, acc(1), &bad), Err(parse_error()));
    assert_eq!(contract_permit_request(&state, &bad, &contract(1), 0), Err(parse_error()));
    assert_eq!(contract_set_implementor(&mut state, &acc(1), &account(1), &bad), Err(parse_error()));
}

#[test]
fn query_parameters_are_read_and_answered() {
    let state = minted_state(acc(1), vec![1]);
    let balance = concordium_cis2::BalanceOfQueryParams::<concordium_cis2::TokenIdU32> {
        queries: vec![
            concordium_cis2::BalanceOfQuery { token_id: concordium_cis2::TokenIdU32(1), address: chain_address(acc(1)) },
            concordium_cis2::BalanceOfQuery { token_id: concordium_cis2::TokenIdU32(1), address: chain_address(acc(2)) },
        ],
    };
    assert_eq!(contract_balance_of_parameter(&state, &concordium_std::to_bytes(&balance)), Ok(vec![1, 0]));
    let missing = concordium_cis2::TokenMetadataQueryParams::<concordium_cis2::TokenIdU32> {
        queries: vec![concordium_cis2::TokenIdU32(1), concordium_cis2::TokenIdU32(2)],
    };
    assert_eq!(
        contract_token_metadata_parameter(&state, &concordium_std::to_bytes(&missing)),
        Err(ContractError::InvalidTokenId)
    );
    let metadata = concordium_cis2::TokenMetadataQueryParams::<concordium_cis2::TokenIdU32> {
        queries: vec![concordium_cis2::TokenIdU32(1)],
    };
    let urls = contract_token_metadata_parameter(&state, &concordium_std::to_bytes(&metadata)).unwrap();
    assert_eq!(urls[0].url, "https://example.com/meta01000000");
    let operators = concordium_cis2::OperatorOfQueryParams {
        queries: vec![concordium_cis2::OperatorOfQuery { owner: chain_address(acc(1)), address: chain_address(acc(1)) }],
    };
    assert_eq!(contract_operator_of_parameter(&state, &concordium_std::to_bytes(&operators)), Ok(vec![false]));
    let supports = concordium_cis2::SupportsQueryParams {
        queries: vec![
            concordium_cis2::StandardIdentifierOwned::new_unchecked("CIS-0".to_string()),
            concordium_cis2::StandardIdentifierOwned::new_unchecked("CIS-9".to_string()),
        ],
    };
    assert_eq!(
        contract_supports_parameter(&state, &concordium_std::to_bytes(&supports)),
        Ok(vec![SupportResult::Support, SupportResult::NoSupport])
    );
    let mut names = vec![2u8, 0, 8, 0];
    names.extend_from_slice(b"transfer");
    names.extend_from_slice(&[4, 0]);
    names.extend_from_slice(b"mint");
    assert_eq!(supports_permit_queries(&names), Ok(vec!["transfer".to_string(), "mint".to_string()]));
}

#[test]
fn transfer_and_update_operator_parameters_are_read() {
    let mut state = minted_state(acc(1), vec![1]);
    let transfers = concordium_cis2::TransferParams::<concordium_cis2::TokenIdU32, concordium_cis2::TokenAmountU8>(vec![
        concordium_cis2::Transfer {
            token_id: concordium_cis2::TokenIdU32(1),
            amount: concordium_cis2::TokenAmountU8(1),
            from: chain_address(acc(1)),
            to: concordium_cis2::Receiver::Account(concordium_std::AccountAddress([2u8; 32])),
            data: concordium_cis2::AdditionalData::empty(),
        },
    ]);
    let read = transfer_parameter(&concordium_std::to_bytes(&transfers)).unwrap();
    assert_eq!(read, vec![account_transfer(1, 1, acc(1), account(2))]);
    let updates = concordium_cis2::UpdateOperatorParams(vec![concordium_cis2::UpdateOperator {
        update: concordium_cis2::OperatorUpdate::Add,
        operator: chain_address(acc(5)),
    }]);
    let events = contract_update_operator_parameter(&mut state, acc(2), &concordium_std::to_bytes(&updates)).unwrap();
    assert_eq!(
        events,
        vec![Event::Cis2Event(Cis2Event::UpdateOperator { update: OperatorUpdate::Add, owner: acc(2), operator: acc(5) })]
    );
    assert_eq!(contract_operator_of(&state, &vec![OperatorOfQuery { owner: acc(2), address: acc(5) }]), vec![true]);
}

/// The bytes of a `permit` parameter with no signatures.
fn permit_bytes(signer: &AccountAddress, m: &PermitMessage) -> Vec<u8> {
    let head = (
        (concordium_std::AccountSignatures { sigs: std::collections::BTreeMap::new() }, concordium_std::AccountAddress(signer.0)),
        (chain_contract(m.contract_address), m.nonce),
        (
            concordium_std::Timestamp::from_timestamp_millis(m.timestamp),
            concordium_std::OwnedEntrypointName::new_unchecked(m.entry_point.clone()),
        ),
    );
    let mut bytes = concordium_std::to_bytes(&head);
    bytes.extend_from_slice(&(m.payload.len() as u16).to_le_bytes());
    bytes.extend_from_slice(&m.payload);
    bytes
}

#[test]
fn permit_request_reads_and_checks_before_any_signature() {
    let state = contract_init();
    let signer = account(3);
    let m = message(0, 100, "updateOperator");
    let bytes = permit_bytes(&signer, &m);
    assert_eq!(contract_permit_request(&state, &bytes, &contract(1), 50), Ok((signer, m.clone(), 0)));
    assert_eq!(
        contract_permit_request(&state, &bytes, &contract(2), 50),
        Err(ContractError::Custom(CustomContractError::WrongContract))
    );
    assert_eq!(
        contract_permit_request(&state, &bytes, &contract(1), 100),
        Err(ContractError::Custom(CustomContractError::Expired))
    );
    assert_eq!(
        contract_permit_request(&state, &permit_bytes(&signer, &message(1, 100, "transfer")), &contract(1), 50),
        Err(ContractError::Custom(CustomContractError::NonceMismatch))
    );
}

#[test]
fn permit_applies_operator_updates_as_the_signer() {
    let mut state = contract_init();
    let signer = account(3);
    let mut m = message(0, 100, "updateOperator");
    m.payload = concordium_std::to_bytes(&concordium_cis2::UpdateOperatorParams(vec![concordium_cis2::UpdateOperator {
        update: concordium_cis2::OperatorUpdate::Add,
        operator: chain_address(acc(8)),
    }]));
    let plan = contract_permit(&mut state, &signer, &m, &contract(1), 50, Ok(true)).unwrap();
    assert_eq!(plan.sender, Address::Account(signer));
    assert!(plan.transfers.is_empty());
    assert_eq!(
        plan.events,
        vec![Event::Cis2Event(Cis2Event::UpdateOperator {
            update: OperatorUpdate::Add,
            owner: Address::Account(signer),
            operator: acc(8),
        })]
    );
    assert_eq!(plan.nonce_event, Event::Nonce(NonceEvent { account: signer, nonce: 0 }));
    assert_eq!(
        contract_operator_of(&state, &vec![OperatorOfQuery { owner: Address::Account(signer), address: acc(8) }]),
        vec![true]
    );
}
