use octopus_relay::pipeline::AppchainPipeline;
use octopus_relay::bridge_token_manager::BridgeTokenManager;
use octopus_relay::bridging::TokenBridging;
use octopus_relay::error::RelayError;
use octopus_relay::hex_address::validate_hex_address;
use octopus_relay::promise::{CallMethod, PromiseAction, PromiseOrValue};
use octopus_relay::storage_key::StorageKey;
use octopus_relay::transfer_message::{split_message, text_eq};
use octopus_relay::types::{AppchainStatus, BridgeStatus};
use octopus_relay::{Context, OctopusRelay};

const RELAY: &str = "octopus_relay";
const OCT: &str = "oct_token";
const B_TOKEN: &str = "b_token";
const YOCTO: u128 = 1_000_000_000_000_000_000_000_000;
const ROOT_ADDRESS: &str = "0x1111111111111111111111111111111111111111111111111111111111111111";
const ALICE_ADDRESS: &str = "0x2222222222222222222222222222222222222222222222222222222222222222";

fn ctx(predecessor: &str, signer: &str) -> Context {
    Context {
        predecessor_account_id: predecessor.to_string(),
        signer_account_id: signer.to_string(),
        current_account_id: RELAY.to_string(),
        block_index: 7,
        block_timestamp: 1_000,
        attached_deposit: 0,
        prepaid_gas: 300_000_000_000_000,
    }
}

fn owner() -> Context {
    ctx(RELAY, RELAY)
}

fn register(relay: &mut OctopusRelay, id: &str, bond: u128) {
    let msg = format!("register_appchain,{},w,g,r,c,e", id);
    let r = relay.ft_on_transfer(&ctx(OCT, "root"), "root".to_string(), bond, msg);
    assert!(matches!(r, Ok(PromiseOrValue::Value(0))));
}

fn to_staging(relay: &mut OctopusRelay, id: &str) {
    relay.pass_appchain(&owner(), id.to_string()).unwrap();
    relay.appchain_go_staging(&owner(), id.to_string()).unwrap();
}

fn stake(relay: &mut OctopusRelay, id: &str, user: &str, address: &str, amount: u128) {
    let r = relay.ft_on_transfer(&ctx(OCT, user), user.to_string(), amount, format!("stake,{},{}", id, address));
    assert!(matches!(r, Ok(PromiseOrValue::Value(0))));
}

fn stakes_sum(relay: &OctopusRelay) -> u128 {
    let mut total = 0;
    for i in 0..relay.appchain_states.len() {
        total += relay.appchain_states.value_at(i).staked_balance;
    }
    total
}

#[test]
fn total_stake_is_the_sum_of_the_appchains_stakes() {
    let mut relay = OctopusRelay::new(&owner(), false, OCT.to_string(), 1, 10 * YOCTO, 3333, 2000000).unwrap();
    register(&mut relay, "one", 0);
    register(&mut relay, "two", 0);
    to_staging(&mut relay, "one");
    to_staging(&mut relay, "two");
    stake(&mut relay, "one", "root", ROOT_ADDRESS, 20 * YOCTO);
    stake(&mut relay, "two", "root", ROOT_ADDRESS, 30 * YOCTO);
    stake(&mut relay, "two", "alice", ALICE_ADDRESS, 40 * YOCTO);
    let more = relay.ft_on_transfer(&ctx(OCT, "alice"), "alice".to_string(), 5 * YOCTO, "stake_more,two".to_string());
    assert!(matches!(more, Ok(PromiseOrValue::Value(0))));
    assert_eq!(relay.get_total_staked_balance(), 95 * YOCTO);
    assert_eq!(stakes_sum(&relay), relay.get_total_staked_balance());

    let p = relay.unstake(&ctx("root", "root"), "two".to_string()).unwrap();
    match &p[0] {
        PromiseAction::Call { method: CallMethod::FtTransfer { receiver_id, amount }, .. } => {
            assert_eq!(receiver_id, "root");
            assert_eq!(*amount, 30 * YOCTO);
        },
        _ => panic!("expected the stake to go back"),
    }
    relay
        .resolve_remove_validator(&owner(), "two".to_string(), ROOT_ADDRESS.to_string(), 30 * YOCTO, true)
        .unwrap();
    assert_eq!(relay.get_total_staked_balance(), 65 * YOCTO);
    assert_eq!(stakes_sum(&relay), relay.get_total_staked_balance());
    let validators = relay.get_validators("two".to_string()).unwrap().unwrap();
    assert_eq!(validators.len(), 1);
    assert_eq!(validators[0].account_id, "alice");
    assert_eq!(validators[0].id, ALICE_ADDRESS);
    assert_eq!(validators[0].staked_amount, 45 * YOCTO);
}

#[test]
fn a_refused_call_changes_nothing() {
    let mut relay = OctopusRelay::new(&owner(), false, OCT.to_string(), 2, 10 * YOCTO, 3333, 2000000).unwrap();
    register(&mut relay, "one", 0);
    to_staging(&mut relay, "one");
    stake(&mut relay, "one", "root", ROOT_ADDRESS, 20 * YOCTO);
    let before = relay.get_appchain("one".to_string()).unwrap().unwrap();
    let r = relay.ft_on_transfer(&ctx(OCT, "alice"), "alice".to_string(), 20 * YOCTO, format!("stake,one,{}", ROOT_ADDRESS));
    assert!(matches!(r, Err(RelayError::ValidatorAlreadyStaked)));
    assert!(matches!(
        relay.activate_appchain(&owner(), "one".to_string(), "n".to_string(), "r".to_string(), String::new(), String::new(), String::new(), String::new()),
        Err(RelayError::InsufficientValidators)
    ));
    let after = relay.get_appchain("one".to_string()).unwrap().unwrap();
    assert_eq!(after.validators.len(), before.validators.len());
    assert_eq!(after.staked_balance, before.staked_balance);
    assert_eq!(after.status, AppchainStatus::Staging);
    assert_eq!(after.boot_nodes, "");
    assert_eq!(relay.get_total_staked_balance(), 20 * YOCTO);
}

#[test]
fn removing_an_appchain_sends_back_a_tenth_of_its_bond() {
    let mut relay = OctopusRelay::new(&owner(), false, OCT.to_string(), 2, 10 * YOCTO, 3333, 2000000).unwrap();
    register(&mut relay, "one", 50 * YOCTO);
    register(&mut relay, "two", 0);
    let p = relay.remove_appchain(&owner(), "one".to_string()).unwrap();
    assert!(matches!(&p[0], PromiseAction::Call { method: CallMethod::FtTransfer { receiver_id, amount }, .. } if receiver_id == "root" && *amount == 5 * YOCTO));
    relay.resolve_remove_appchain(&owner(), "one".to_string(), false).unwrap();
    assert_eq!(relay.get_num_appchains(), 2);
    relay.resolve_remove_appchain(&owner(), "one".to_string(), true).unwrap();
    assert_eq!(relay.get_num_appchains(), 1);
    assert_eq!(relay.get_appchain("one".to_string()).map(|a| a.is_some()), Err(RelayError::AppchainNotFound));
    assert!(relay.get_appchain("two".to_string()).unwrap().is_some());
}

#[test]
fn pausing_then_resuming_a_token_gives_it_back() {
    let mut relay = OctopusRelay::new(&owner(), false, OCT.to_string(), 2, 10 * YOCTO, 3333, 2000000).unwrap();
    relay.register_bridge_token(&owner(), B_TOKEN.to_string(), "BTK".to_string(), 77, 6).unwrap();
    relay.set_bridge_permitted(&owner(), B_TOKEN.to_string(), "one".to_string(), true).unwrap();
    relay.pause_bridge_token(&owner(), B_TOKEN.to_string()).unwrap();
    assert_eq!(relay.get_bridge_token(B_TOKEN.to_string()).unwrap().status, BridgeStatus::Paused);
    relay.resume_bridge_token(&owner(), B_TOKEN.to_string()).unwrap();
    let t = relay.get_bridge_token(B_TOKEN.to_string()).unwrap();
    assert_eq!(t.status, BridgeStatus::Active);
    assert_eq!(t.price, 77);
    assert_eq!(relay.resume_bridge_token(&owner(), B_TOKEN.to_string()), Err(RelayError::BridgeAlreadyActive));
    assert_eq!(t.decimals, 6);
    assert_eq!(t.symbol, "BTK");
    let i = relay.bridge_tokens.find(&B_TOKEN.to_string()).unwrap();
    assert!(relay.bridge_tokens.value_at(i).is_permitted_of(&"one".to_string()));
    assert!(!relay.bridge_tokens.value_at(i).is_permitted_of(&"two".to_string()));
}

#[test]
fn splitting_a_message_then_joining_gives_it_back() {
    for msg in ["register_appchain,a,b,,c", "", ",", "no_commas", "stake,testchain,0x12"] {
        let fields = split_message(&msg.to_string());
        assert_eq!(fields.join(","), msg);
        assert!(fields.iter().all(|f| !f.contains(',')));
    }
    assert_eq!(split_message(&"a,,b".to_string()), vec!["a".to_string(), String::new(), "b".to_string()]);
    assert!(text_eq("stake", "stake"));
    assert!(!text_eq("stake", "stake_more"));
    assert!(!text_eq("stake", "stakf"));
}

#[test]
fn a_validated_address_validates_to_itself() {
    let digits = "ab".repeat(32);
    let with_prefix = format!("0x{}", digits);
    let once = validate_hex_address(&digits).unwrap();
    assert_eq!(once, with_prefix);
    let twice = validate_hex_address(&once).unwrap();
    assert_eq!(twice, once);
    let upper = format!("0x{}", "CD".repeat(32));
    assert_eq!(validate_hex_address(&upper).unwrap(), upper);
    assert_eq!(validate_hex_address(&"0xabc".to_string()), Err(RelayError::InvalidHexAddress));
    assert_eq!(validate_hex_address(&format!("0x{}", "00".repeat(31))), Err(RelayError::AddressNotThirtyTwoBytes));
    let relay = OctopusRelay::new(&owner(), false, OCT.to_string(), 2, 10 * YOCTO, 3333, 2000000).unwrap();
    assert_eq!(relay.validate_hex_address(digits.clone()).unwrap(), with_prefix);
}

#[test]
fn storage_keys_are_written_as_text() {
    assert_eq!(StorageKey::AppchainIdList.to_string(), "ail");
    assert_eq!(StorageKey::AppchainMetadata("abc".to_string()).to_string(), "abcm");
    assert_eq!(StorageKey::RawFacts("abc".to_string()).to_string(), "abc%rfs");
    assert_eq!(
        StorageKey::AppchainFact { appchain_id: "abc".to_string(), fact_index: 42 }.to_string(),
        "abc0000000042"
    );
    assert_eq!(
        StorageKey::RawFactHistoryKey { appchain_id: "a".to_string(), fact_index: 1, validator_index: 4294967295 }
            .to_string(),
        "a00000000014294967295%rfv"
    );
    assert_eq!(
        StorageKey::ValidatorHistory { appchain_id: "a".to_string(), validator_index: 3, history_index: 12345678901 }
            .to_string(),
        "a000000000312345678901%vh"
    );
    assert_eq!(
        StorageKey::AppchainDelegator("a".to_string(), "v".to_string(), "d".to_string()).to_string(),
        "avd"
    );
    assert_eq!(StorageKey::RelayedBridgeTokenPermissions { token_id: "t".to_string() }.to_string(), "rttps");
    assert_eq!(StorageKey::BridgeTokens.into_bytes(), b"bts".to_vec());
    assert_eq!(StorageKey::AppchainState("é".to_string()).into_bytes(), "ést".as_bytes()[..3].to_vec());
}

#[test]
fn validator_sets_are_sorted_by_id() {
    let mut relay = OctopusRelay::new(&owner(), false, OCT.to_string(), 2, 10 * YOCTO, 3333, 2000000).unwrap();
    register(&mut relay, "one", 0);
    to_staging(&mut relay, "one");
    stake(&mut relay, "one", "alice", ALICE_ADDRESS, 20 * YOCTO);
    stake(&mut relay, "one", "root", ROOT_ADDRESS, 30 * YOCTO);
    let r = relay
        .activate_appchain(&owner(), "one".to_string(), "n".to_string(), "r".to_string(), String::new(), String::new(), String::new(), String::new())
        .unwrap();
    assert!(matches!(r, PromiseOrValue::Value(Some(AppchainStatus::Booting))));
    let set = relay.get_validator_set("one".to_string()).unwrap();
    assert_eq!(set.seq_num, 0);
    assert_eq!(set.validators.len(), 2);
    assert_eq!(set.validators[0].id, ROOT_ADDRESS);
    assert_eq!(set.validators[1].id, ALICE_ADDRESS);
    let next = relay.next_validator_set("one".to_string(), true).unwrap();
    assert_eq!(next.validators[0].id, ROOT_ADDRESS);
    assert_eq!(relay.get_curr_validator_set_len("one".to_string()), Ok(0));
    // Each of the two stakes raised the validators nonce, so the first set has id 2.
    assert_eq!(set.set_id, 2);
    assert!(relay.get_validator_set_by_set_id("one".to_string(), 0).unwrap().is_none());
    let by_id = relay.get_validator_set_by_set_id("one".to_string(), 2).unwrap().unwrap();
    assert_eq!(by_id.validators.len(), 2);
}

#[test]
fn removing_a_validator_right_after_it_staked_undoes_the_stake() {
    let mut relay = OctopusRelay::new(&owner(), false, OCT.to_string(), 2, 10 * YOCTO, 3333, 2000000).unwrap();
    register(&mut relay, "one", 0);
    to_staging(&mut relay, "one");
    stake(&mut relay, "one", "alice", ALICE_ADDRESS, 20 * YOCTO);
    let before = relay.get_appchain("one".to_string()).unwrap().unwrap();
    let total_before = relay.get_total_staked_balance();
    stake(&mut relay, "one", "root", ROOT_ADDRESS, 30 * YOCTO);
    assert_eq!(relay.get_total_staked_balance(), total_before + 30 * YOCTO);
    let p = relay.remove_validator(&owner(), "one".to_string(), ROOT_ADDRESS.to_string()).unwrap();
    assert!(matches!(&p[1], PromiseAction::Call { method: CallMethod::ResolveRemoveValidator { amount, .. }, .. } if *amount == 30 * YOCTO));
    relay.resolve_remove_validator(&owner(), "one".to_string(), ROOT_ADDRESS.to_string(), 30 * YOCTO, true).unwrap();
    let after = relay.get_appchain("one".to_string()).unwrap().unwrap();
    assert_eq!(relay.get_total_staked_balance(), total_before);
    assert_eq!(after.staked_balance, before.staked_balance);
    assert_eq!(after.validators.len(), before.validators.len());
    assert_eq!(after.validators[0].id, ALICE_ADDRESS);
}

#[test]
fn fact_keys_have_fixed_lengths_and_differ_by_index() {
    let id = "testchain".to_string();
    let fact = |i: u32| StorageKey::AppchainFact { appchain_id: id.clone(), fact_index: i }.to_string();
    let entry = |f: u32, v: u32| {
        StorageKey::RawFactHistoryKey { appchain_id: id.clone(), fact_index: f, validator_index: v }.to_string()
    };
    assert_eq!(fact(0).len(), id.len() + 10);
    assert_eq!(fact(u32::MAX).len(), id.len() + 10);
    assert_eq!(entry(0, 0).len(), id.len() + 24);
    assert_eq!(entry(u32::MAX, 7).len(), id.len() + 24);
    assert_ne!(fact(1), fact(10));
    assert_ne!(entry(1, 23), entry(12, 3));
    assert_ne!(entry(1, 2), entry(2, 1));
}

#[test]
fn validator_ids_need_not_be_hex() {
    let mut relay = OctopusRelay::new(&owner(), false, OCT.to_string(), 2, 10 * YOCTO, 3333, 2000000).unwrap();
    register(&mut relay, "one", 0);
    to_staging(&mut relay, "one");
    stake(&mut relay, "one", "root", "validator_id0", 20 * YOCTO);
    let digits = "ab".repeat(32);
    stake(&mut relay, "one", "alice", &digits, 20 * YOCTO);
    let validators = relay.get_validators("one".to_string()).unwrap().unwrap();
    assert_eq!(validators[0].id, "validator_id0");
    assert_eq!(validators[1].id, format!("0x{}", digits));
    let again = relay.ft_on_transfer(&ctx(OCT, "bob"), "bob".to_string(), 20 * YOCTO, format!("stake,one,0x{}", digits));
    assert!(matches!(again, Err(RelayError::ValidatorAlreadyStaked)));
}

#[test]
fn staking_more_adds_to_the_signers_own_validator() {
    let mut relay = OctopusRelay::new(&owner(), false, OCT.to_string(), 2, 10 * YOCTO, 3333, 2000000).unwrap();
    register(&mut relay, "one", 0);
    to_staging(&mut relay, "one");
    stake(&mut relay, "one", "root", ROOT_ADDRESS, 20 * YOCTO);
    let more = relay.ft_on_transfer(&ctx(OCT, "root"), "root".to_string(), 5 * YOCTO, "stake_more,one".to_string());
    assert!(matches!(more, Ok(PromiseOrValue::Value(0))));
    let v = relay.get_validator("one".to_string(), ROOT_ADDRESS.to_string()).unwrap();
    assert_eq!(v.staked_amount, 25 * YOCTO);
    assert_eq!(relay.get_total_staked_balance(), 25 * YOCTO);
    let appchain = relay.get_appchain("one".to_string()).unwrap().unwrap();
    assert_eq!(appchain.staked_balance, 25 * YOCTO);
}

#[test]
fn each_stake_raises_the_validators_nonce() {
    let mut relay = OctopusRelay::new(&owner(), false, OCT.to_string(), 2, 10 * YOCTO, 3333, 2000000).unwrap();
    register(&mut relay, "one", 0);
    to_staging(&mut relay, "one");
    let nonce = |relay: &OctopusRelay| {
        let i = relay.appchain_states.find(&"one".to_string()).unwrap();
        relay.appchain_states.value_at(i).validators_nonce
    };
    assert_eq!(nonce(&relay), 0);
    stake(&mut relay, "one", "root", ROOT_ADDRESS, 20 * YOCTO);
    assert_eq!(nonce(&relay), 1);
    stake(&mut relay, "one", "alice", ALICE_ADDRESS, 20 * YOCTO);
    assert_eq!(nonce(&relay), 2);
    let more = relay.ft_on_transfer(&ctx(OCT, "root"), "root".to_string(), 5 * YOCTO, "stake_more,one".to_string());
    assert!(matches!(more, Ok(PromiseOrValue::Value(0))));
    assert_eq!(nonce(&relay), 3);
}

#[test]
fn a_stake_reads_back_under_its_id() {
    let mut relay = OctopusRelay::new(&owner(), false, OCT.to_string(), 2, 10 * YOCTO, 3333, 2000000).unwrap();
    register(&mut relay, "one", 0);
    to_staging(&mut relay, "one");
    let digits = "cd".repeat(32);
    stake(&mut relay, "one", "root", &digits, 20 * YOCTO);
    let v = relay.get_validator("one".to_string(), format!("0x{}", digits)).unwrap();
    assert_eq!(v.account_id, "root");
    assert_eq!(v.staked_amount, 20 * YOCTO);
    assert_eq!(relay.get_total_staked_balance(), 20 * YOCTO);
}

#[test]
fn unlocking_what_was_locked_gives_back_the_locked_total() {
    let mut relay = OctopusRelay::new(&owner(), false, OCT.to_string(), 2, 10 * YOCTO, 3333, 2000000).unwrap();
    register(&mut relay, "one", 0);
    let i = relay.appchain_states.find(&"one".to_string()).unwrap();
    let st = relay.appchain_states.value_mut_at(i);
    st.lock_token("r".to_string(), "root".to_string(), "other".to_string(), 3);
    let before = st.get_total_locked_amount_of(&B_TOKEN.to_string());
    let facts_before = st.facts.len();
    st.lock_token("r".to_string(), "root".to_string(), B_TOKEN.to_string(), 40);
    assert_eq!(st.get_total_locked_amount_of(&B_TOKEN.to_string()), before + 40);
    st.unlock_token(B_TOKEN.to_string(), 40);
    assert_eq!(st.get_total_locked_amount_of(&B_TOKEN.to_string()), before);
    assert_eq!(st.get_total_locked_amount_of(&"other".to_string()), 3);
    assert_eq!(st.facts.len(), facts_before + 1);
}
