use near_sdk::borsh::BorshSerialize;
use octopus_relay::pipeline::AppchainPipeline;
use octopus_relay::bridge_token_manager::BridgeTokenManager;
use octopus_relay::bridging::TokenBridging;
use octopus_relay::error::RelayError;
use octopus_relay::native_token_manager::NativeTokenManager;
use octopus_relay::promise::{CallMethod, PromiseAction, PromiseOrValue};
use octopus_relay::proof_decoder::{raw_messages_from_records, ProofDecoder};
use octopus_relay::types::{Fact, Message, MessagePayload, PayloadType, StorageBalance, LockPayload, BurnAssetPayload};
use octopus_relay::{Context, OctopusRelay};
use parity_scale_codec::Encode;

const RELAY: &str = "octopus_relay";
const OCT: &str = "oct_token";
const B_TOKEN: &str = "b_token";
const NATIVE: &str = "testchain_token";
const YOCTO: u128 = 1_000_000_000_000_000_000_000_000;
const STORAGE_DEPOSIT: u128 = 1250000000000000000000;
const ROOT_ADDRESS: &str = "0x1111111111111111111111111111111111111111111111111111111111111111";
const ALICE_ADDRESS: &str = "0x2222222222222222222222222222222222222222222222222222222222222222";

fn ctx(predecessor: &str, signer: &str) -> Context {
    Context {
        predecessor_account_id: predecessor.to_string(),
        signer_account_id: signer.to_string(),
        current_account_id: RELAY.to_string(),
        block_index: 7,
        block_timestamp: 1_000,
        attached_deposit: 0,
        prepaid_gas: 300_000_000_000_000,
    }
}

fn ctx_with_deposit(predecessor: &str, signer: &str, deposit: u128) -> Context {
    let mut c = ctx(predecessor, signer);
    c.attached_deposit = deposit;
    c
}

fn booting_relay() -> OctopusRelay {
    let mut relay =
        OctopusRelay::new(&ctx(RELAY, RELAY), false, OCT.to_string(), 2, 100 * YOCTO, 3333, 2000000).unwrap();
    let r = relay.ft_on_transfer(
        &ctx(OCT, "root"),
        "root".to_string(),
        0,
        "register_appchain,testchain,w,g,r,c,e".to_string(),
    );
    assert!(matches!(r, Ok(PromiseOrValue::Value(0))));
    relay.pass_appchain(&ctx(RELAY, RELAY), "testchain".to_string()).unwrap();
    relay.appchain_go_staging(&ctx(RELAY, RELAY), "testchain".to_string()).unwrap();
    for (user, address) in [("root", ROOT_ADDRESS), ("alice", ALICE_ADDRESS)] {
        let r = relay.ft_on_transfer(&ctx(OCT, user), user.to_string(), 200 * YOCTO, format!("stake,testchain,{}", address));
        assert!(matches!(r, Ok(PromiseOrValue::Value(0))));
    }
    let r = relay
        .activate_appchain(
            &ctx(RELAY, RELAY),
            "testchain".to_string(),
            String::new(),
            String::new(),
            String::new(),
            String::new(),
            String::new(),
            String::new(),
        )
        .unwrap();
    // Without a bond the appchain is activated at once.
    assert!(matches!(r, PromiseOrValue::Value(Some(_))));
    relay.register_bridge_token(&ctx(RELAY, RELAY), B_TOKEN.to_string(), "BTK".to_string(), 1000000, 12).unwrap();
    relay.set_bridge_permitted(&ctx(RELAY, RELAY), B_TOKEN.to_string(), "testchain".to_string(), true).unwrap();
    relay
}

fn locked_of(relay: &OctopusRelay, token: &str) -> u128 {
    let i = relay.appchain_states.find(&"testchain".to_string()).unwrap();
    relay.appchain_states.value_at(i).get_total_locked_amount_of(&token.to_string())
}

fn message_nonce(relay: &OctopusRelay) -> u32 {
    let i = relay.appchain_states.find(&"testchain".to_string()).unwrap();
    relay.appchain_states.value_at(i).message_nonce
}

#[test]
fn lock_then_unlock_restores_the_locked_amount() {
    let mut relay = booting_relay();
    assert_eq!(locked_of(&relay, B_TOKEN), 0);
    let amount = relay
        .lock_token("testchain".to_string(), "receiver".to_string(), "root".to_string(), B_TOKEN.to_string(), 500)
        .unwrap();
    assert_eq!(amount, 500);
    assert_eq!(locked_of(&relay, B_TOKEN), 500);
    relay.resolve_unlock_token(&ctx(RELAY, RELAY), B_TOKEN.to_string(), "testchain".to_string(), 500, true).unwrap();
    assert_eq!(locked_of(&relay, B_TOKEN), 0);
    assert_eq!(message_nonce(&relay), 1);
}

#[test]
fn locking_all_that_is_allowed_leaves_nothing_allowed() {
    let mut relay = booting_relay();
    let allowed = relay.get_bridge_allowed_amount("testchain".to_string(), B_TOKEN.to_string()).unwrap();
    assert_eq!(allowed, 266_640_000_000_000);
    assert_eq!(
        relay.lock_token("testchain".to_string(), "r".to_string(), "root".to_string(), B_TOKEN.to_string(), allowed + 1),
        Err(RelayError::InsufficientAllowance)
    );
    relay.lock_token("testchain".to_string(), "r".to_string(), "root".to_string(), B_TOKEN.to_string(), allowed).unwrap();
    assert_eq!(relay.get_bridge_allowed_amount("testchain".to_string(), B_TOKEN.to_string()), Ok(0));
    assert_eq!(
        relay.lock_token("testchain".to_string(), "r".to_string(), "root".to_string(), B_TOKEN.to_string(), 1),
        Err(RelayError::InsufficientAllowance)
    );
}

#[test]
fn more_locked_never_allows_more() {
    let mut relay = booting_relay();
    let before = relay.get_bridge_allowed_amount("testchain".to_string(), B_TOKEN.to_string()).unwrap();
    // The limit is 266640000 in units of the OCT price; the token's price is 1000000, with 12 decimals.
    assert!(before <= 266640000 * 10u128.pow(12) / 1000000);
    // A lock worth less than one unit of the OCT price uses nothing of the limit.
    relay.lock_token("testchain".to_string(), "r".to_string(), "root".to_string(), B_TOKEN.to_string(), 1000).unwrap();
    let same = relay.get_bridge_allowed_amount("testchain".to_string(), B_TOKEN.to_string()).unwrap();
    assert_eq!(same, before);
    // One whole token is worth 1000000 of the limit.
    relay.lock_token("testchain".to_string(), "r".to_string(), "root".to_string(), B_TOKEN.to_string(), 10u128.pow(12)).unwrap();
    let after = relay.get_bridge_allowed_amount("testchain".to_string(), B_TOKEN.to_string()).unwrap();
    assert!(after <= before);
    assert_eq!(after, before - 10u128.pow(12));
}

#[test]
fn lock_records_validator_set_and_lock_facts() {
    let mut relay = booting_relay();
    relay.lock_token("testchain".to_string(), "receiver".to_string(), "root".to_string(), B_TOKEN.to_string(), 7).unwrap();
    let i = relay.appchain_states.find(&"testchain".to_string()).unwrap();
    let facts = relay.appchain_states.value_at(i).get_facts(0, 10).unwrap();
    assert_eq!(facts.len(), 3);
    assert!(matches!(&facts[0], Fact::UpdateValidatorSet(s) if s.seq_num == 0 && s.validators.len() == 2));
    assert!(matches!(&facts[1], Fact::UpdateValidatorSet(s) if s.seq_num == 1));
    match &facts[2] {
        Fact::LockToken(l) => {
            // The first lock of the appchain.
            assert_eq!(l.seq_num, 0);
            assert_eq!(l.token_id, B_TOKEN);
            assert_eq!(l.sender_id, "root");
            assert_eq!(l.receiver, "receiver");
            assert_eq!(l.amount, 7);
        },
        _ => panic!("expected a lock"),
    }
}

#[test]
fn unlock_checks_the_storage_of_the_receiver_first() {
    let mut relay = booting_relay();
    relay.lock_token("testchain".to_string(), "r".to_string(), "root".to_string(), B_TOKEN.to_string(), 100).unwrap();
    let c = ctx_with_deposit(RELAY, RELAY, STORAGE_DEPOSIT);
    let p = relay
        .unlock_token(&c, "testchain".to_string(), B_TOKEN.to_string(), "sender".to_string(), "bob".to_string(), 60)
        .unwrap();
    assert_eq!(p.len(), 2);
    match &p[0] {
        PromiseAction::Call { contract_id, method: CallMethod::StorageBalanceOf { account_id }, deposit, gas } => {
            assert_eq!(contract_id, B_TOKEN);
            assert_eq!(account_id, "bob");
            assert_eq!(*deposit, STORAGE_DEPOSIT);
            assert_eq!(*gas, 5_000_000_000_000);
        },
        _ => panic!("expected a storage balance check"),
    }
    match &p[1] {
        PromiseAction::Call { method: CallMethod::CheckBridgeTokenStorageDeposit { amount, .. }, gas, .. } => {
            assert_eq!(*amount, 60);
            assert_eq!(*gas, 300_000_000_000_000 - 30_000_000_000_000);
        },
        _ => panic!("expected the callback"),
    }
}

#[test]
fn unlocked_tokens_go_at_once_to_a_receiver_with_storage() {
    let relay = booting_relay();
    let c = ctx(RELAY, "signer");
    let balance = StorageBalance { total: 10, available: 0 };
    let p = relay
        .check_bridge_token_storage_deposit(
            &c,
            STORAGE_DEPOSIT,
            "bob".to_string(),
            B_TOKEN.to_string(),
            "testchain".to_string(),
            60,
            true,
            Some(balance),
        )
        .unwrap();
    assert_eq!(p.len(), 3);
    assert!(matches!(&p[0], PromiseAction::Call { method: CallMethod::FtTransfer { amount: 60, .. }, deposit: 1, .. }));
    assert!(matches!(&p[1], PromiseAction::Transfer { receiver_id, amount } if receiver_id == "signer" && *amount == STORAGE_DEPOSIT));
    assert!(matches!(&p[2], PromiseAction::Call { method: CallMethod::ResolveUnlockToken { amount: 60, .. }, .. }));
}

#[test]
fn unlocked_tokens_wait_for_a_storage_deposit() {
    let relay = booting_relay();
    let c = ctx(RELAY, "signer");
    let p = relay
        .check_bridge_token_storage_deposit(
            &c,
            STORAGE_DEPOSIT,
            "bob".to_string(),
            B_TOKEN.to_string(),
            "testchain".to_string(),
            60,
            true,
            None,
        )
        .unwrap();
    assert_eq!(p.len(), 3);
    assert!(matches!(&p[0], PromiseAction::Call { method: CallMethod::StorageDeposit { account_id }, deposit, .. } if account_id == "bob" && *deposit == STORAGE_DEPOSIT));
    assert!(matches!(&p[1], PromiseAction::Call { method: CallMethod::ResolveBridgeTokenStorageDeposit { .. }, .. }));
    let zero = StorageBalance { total: 0, available: 0 };
    let q = relay
        .create_unlock_promise(&c, STORAGE_DEPOSIT, "bob".to_string(), B_TOKEN.to_string(), "testchain".to_string(), 60, Some(zero))
        .unwrap();
    assert!(matches!(&q[0], PromiseAction::Call { method: CallMethod::StorageDeposit { .. }, .. }));
}

#[test]
fn storage_deposit_refunds_what_is_left() {
    let relay = booting_relay();
    let c = ctx(RELAY, "signer");
    let b = StorageBalance { total: STORAGE_DEPOSIT - 100, available: 0 };
    let p = relay
        .resolve_bridge_token_storage_deposit(&c, STORAGE_DEPOSIT, "bob".to_string(), 60, B_TOKEN.to_string(), Some(b))
        .unwrap();
    assert_eq!(p.len(), 2);
    assert!(matches!(&p[0], PromiseAction::Transfer { receiver_id, amount: 100 } if receiver_id == "signer"));
    assert!(matches!(&p[1], PromiseAction::Call { method: CallMethod::FtTransfer { amount: 60, .. }, .. }));
    let exact = StorageBalance { total: STORAGE_DEPOSIT, available: 0 };
    let q = relay
        .resolve_bridge_token_storage_deposit(&c, STORAGE_DEPOSIT, "bob".to_string(), 60, B_TOKEN.to_string(), Some(exact))
        .unwrap();
    assert_eq!(q.len(), 1);
    let none = relay
        .resolve_bridge_token_storage_deposit(&c, STORAGE_DEPOSIT, "bob".to_string(), 60, B_TOKEN.to_string(), None)
        .unwrap();
    assert!(matches!(&none[0], PromiseAction::Transfer { amount, .. } if *amount == STORAGE_DEPOSIT));
    let too_much = StorageBalance { total: STORAGE_DEPOSIT + 1, available: 0 };
    assert_eq!(
        relay
            .resolve_bridge_token_storage_deposit(&c, STORAGE_DEPOSIT, "bob".to_string(), 60, B_TOKEN.to_string(), Some(too_much))
            .map(|p| p.len()),
        Err(RelayError::ArithmeticOverflow)
    );
}

#[test]
fn native_tokens_are_minted_and_burnt_through_their_contract() {
    let mut relay = booting_relay();
    assert_eq!(relay.get_native_token("testchain".to_string()), None);
    relay.register_native_token(&ctx(RELAY, RELAY), "testchain".to_string(), NATIVE.to_string()).unwrap();
    assert_eq!(relay.get_native_token("testchain".to_string()), Some(NATIVE.to_string()));

    let minted = relay
        .mint_native_token(&ctx_with_deposit(RELAY, RELAY, STORAGE_DEPOSIT), "testchain".to_string(), "bob".to_string(), 9)
        .unwrap();
    assert!(matches!(&minted[0], PromiseAction::Call { contract_id, method: CallMethod::Mint { receiver_id, amount: 9 }, .. } if contract_id == NATIVE && receiver_id == "bob"));
    relay.resolve_mint_native_token(&ctx(RELAY, RELAY), "testchain".to_string(), true).unwrap();
    assert_eq!(message_nonce(&relay), 1);

    let burnt = relay
        .burn_native_token(&ctx_with_deposit("bob", "bob", 1), "testchain".to_string(), "receiver".to_string(), 4)
        .unwrap();
    assert!(matches!(&burnt[0], PromiseAction::Call { method: CallMethod::Burn { account_id, amount: 4 }, .. } if account_id == "bob"));
    assert!(matches!(&burnt[1], PromiseAction::Call { method: CallMethod::ResolveBurnNativeToken { sender_id, .. }, .. } if sender_id == "bob"));
    relay
        .resolve_burn_native_token(&ctx(RELAY, RELAY), "testchain".to_string(), "bob".to_string(), "receiver".to_string(), 4, true)
        .unwrap();
    let i = relay.appchain_states.find(&"testchain".to_string()).unwrap();
    let facts = relay.appchain_states.value_at(i).get_facts(0, 10).unwrap();
    match facts.last().unwrap() {
        Fact::BurnNativeToken(b) => {
            assert_eq!(b.seq_num as usize, facts.len() - 1);
            assert_eq!(b.sender_id, "bob");
            assert_eq!(b.receiver, "receiver");
            assert_eq!(b.amount, 4);
        },
        _ => panic!("expected a burn"),
    }
}

fn encoded_messages() -> Vec<u8> {
    let burn = ("b_token".to_string(), "sender".to_string(), "bob".to_string(), 60u128).try_to_vec().unwrap();
    let lock = ("sender".to_string(), "carol".to_string(), 9u128).try_to_vec().unwrap();
    vec![(1u64, 1u8, burn), (2u64, 0u8, lock)].encode()
}

#[test]
fn messages_are_decoded_from_scale_and_borsh() {
    let relay = booting_relay();
    let messages = relay.decode(encoded_messages(), Vec::new(), Vec::new(), Vec::new()).unwrap();
    assert_eq!(messages.len(), 2);
    assert_eq!(messages[0].nonce, 1);
    match &messages[0].payload {
        MessagePayload::BurnAsset(p) => {
            assert_eq!(p.token_id, "b_token");
            assert_eq!(p.sender, "sender");
            assert_eq!(p.receiver_id, "bob");
            assert_eq!(p.amount, 60);
        },
        _ => panic!("expected a burn"),
    }
    match &messages[1].payload {
        MessagePayload::Lock(p) => {
            assert_eq!(p.sender, "sender");
            assert_eq!(p.receiver_id, "carol");
            assert_eq!(p.amount, 9);
        },
        _ => panic!("expected a lock"),
    }
}

#[test]
fn undecodable_messages_are_refused() {
    let relay = booting_relay();
    assert_eq!(
        relay.decode(vec![4, 1], Vec::new(), Vec::new(), Vec::new()).map(|m| m.len()),
        Err(RelayError::DecodeFailed)
    );
    let bad_type = vec![(1u64, 5u8, Vec::<u8>::new())].encode();
    assert_eq!(
        relay.decode(bad_type, Vec::new(), Vec::new(), Vec::new()).map(|m| m.len()),
        Err(RelayError::DecodeFailed)
    );
    let bad_payload = vec![(1u64, 0u8, vec![1u8, 2, 3])].encode();
    assert_eq!(
        relay.decode(bad_payload, Vec::new(), Vec::new(), Vec::new()).map(|m| m.len()),
        Err(RelayError::DecodeFailed)
    );
    let raws = raw_messages_from_records(vec![(3, 1, vec![9]), (4, 0, vec![])]).unwrap();
    assert_eq!(raws[0].payload_type, PayloadType::BurnAsset);
    assert_eq!(raws[1].payload_type, PayloadType::Lock);
    assert_eq!(raws[0].payload, vec![9]);
    assert!(raw_messages_from_records(vec![(3, 2, vec![])]).is_err());
}

#[test]
fn relay_carries_out_the_first_message_and_hands_on_the_rest() {
    let relay = booting_relay();
    let c = ctx_with_deposit("anyone", "anyone", 2 * STORAGE_DEPOSIT + 5);
    let p = relay.relay(&c, "testchain".to_string(), encoded_messages(), Vec::new(), Vec::new(), Vec::new()).unwrap();
    assert_eq!(p.len(), 2);
    match &p[0] {
        PromiseAction::Call { contract_id, method: CallMethod::UnlockToken { token_id, receiver_id, amount, .. }, deposit, gas } => {
            assert_eq!(contract_id, RELAY);
            assert_eq!(token_id, "b_token");
            assert_eq!(receiver_id, "bob");
            assert_eq!(*amount, 60);
            assert_eq!(*deposit, STORAGE_DEPOSIT);
            assert_eq!(*gas, 70_000_000_000_000);
        },
        _ => panic!("expected an unlock"),
    }
    let rest: Vec<Message> = match &p[1] {
        PromiseAction::Call { method: CallMethod::Execute { messages, remaining_deposit, .. }, gas, .. } => {
            assert_eq!(*remaining_deposit, STORAGE_DEPOSIT + 5);
            assert_eq!(*gas, 75_000_000_000_000);
            messages.clone()
        },
        _ => panic!("expected the rest"),
    };
    assert_eq!(rest.len(), 1);
    let q = relay.execute(&c, rest, "testchain".to_string(), STORAGE_DEPOSIT + 5).unwrap();
    assert!(matches!(&q[0], PromiseAction::Call { method: CallMethod::MintNativeToken { amount: 9, .. }, gas: 100_000_000_000_000, .. }));
    let done = relay.execute(&c, Vec::new(), "testchain".to_string(), 5).unwrap();
    assert_eq!(done.len(), 0);
    let lock = Message {
        nonce: 3,
        payload: MessagePayload::Lock(LockPayload { sender: "s".to_string(), receiver_id: "r".to_string(), amount: 1 }),
    };
    assert_eq!(
        relay.execute(&c, vec![lock], "testchain".to_string(), 5).map(|p| p.len()),
        Err(RelayError::ArithmeticOverflow)
    );
    let burn = Message {
        nonce: 4,
        payload: MessagePayload::BurnAsset(BurnAssetPayload {
            token_id: "t".to_string(),
            sender: "s".to_string(),
            receiver_id: "r".to_string(),
            amount: 1,
        }),
    };
    assert_eq!(
        relay.execute(&c, vec![burn], "nochain".to_string(), STORAGE_DEPOSIT).map(|p| p.len()),
        Err(RelayError::AppchainNotFound)
    );
}
