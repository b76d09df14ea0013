use octopus_relay::pipeline::AppchainPipeline;
use octopus_relay::error::RelayError;
use octopus_relay::promise::PromiseOrValue;
use octopus_relay::types::AppchainStatus;
use octopus_relay::{Context, OctopusRelay, Ownable};

const RELAY: &str = "octopus_relay";
const OCT: &str = "oct_token";
const YOCTO: u128 = 1_000_000_000_000_000_000_000_000;
const ROOT_ADDRESS: &str = "0x1111111111111111111111111111111111111111111111111111111111111111";

fn ctx(predecessor: &str, signer: &str) -> Context {
    Context {
        predecessor_account_id: predecessor.to_string(),
        signer_account_id: signer.to_string(),
        current_account_id: RELAY.to_string(),
        block_index: 11,
        block_timestamp: 5_000,
        attached_deposit: 0,
        prepaid_gas: 300_000_000_000_000,
    }
}

fn owner() -> Context {
    ctx(RELAY, RELAY)
}

fn init() -> OctopusRelay {
    OctopusRelay::new(&owner(), false, OCT.to_string(), 1, 10 * YOCTO, 3333, 2000000).unwrap()
}

fn register(relay: &mut OctopusRelay, id: &str, bond: u128) {
    let msg = format!("register_appchain,{},w,g,r,c,e", id);
    let r = relay.ft_on_transfer(&ctx(OCT, "root"), "root".to_string(), bond, msg);
    assert!(matches!(r, Ok(PromiseOrValue::Value(0))));
}

#[test]
fn settings_of_a_new_relay() {
    let relay = init();
    assert_eq!(relay.get_version(), 0);
    assert_eq!(relay.get_owner(), RELAY);
    assert_eq!(relay.get_appchain_minimum_validators(), 1);
    assert_eq!(relay.get_minimum_staking_amount(), 10 * YOCTO);
    assert_eq!(relay.get_total_staked_balance(), 0);
    assert_eq!(relay.get_num_appchains(), 0);
    assert_eq!(relay.get_appchains(0, 10).unwrap().len(), 0);
}

#[test]
fn appchains_are_listed_in_registration_order() {
    let mut relay = init();
    register(&mut relay, "one", 0);
    register(&mut relay, "two", 0);
    register(&mut relay, "three", 0);
    let all = relay.get_appchains(0, 10).unwrap();
    assert_eq!(all.iter().map(|a| a.id.clone()).collect::<Vec<_>>(), vec!["one", "two", "three"]);
    let middle = relay.get_appchains(1, 1).unwrap();
    assert_eq!(middle.len(), 1);
    assert_eq!(middle[0].id, "two");
    assert_eq!(relay.get_appchains(5, 2).unwrap().len(), 0);
    assert_eq!(relay.get_appchains(u32::MAX, 1).map(|v| v.len()), Err(RelayError::ArithmeticOverflow));
}

#[test]
fn the_owner_can_be_handed_over() {
    let mut relay = init();
    relay.set_owner(&owner(), "council".to_string()).unwrap();
    assert_eq!(relay.get_owner(), "council");
    assert_eq!(relay.pass_appchain(&owner(), "one".to_string()), Err(RelayError::NotOwner));
    register(&mut relay, "one", 0);
    relay.pass_appchain(&ctx("council", "council"), "one".to_string()).unwrap();
    assert_eq!(relay.get_appchain("one".to_string()).unwrap().unwrap().status, AppchainStatus::Voting);
}

#[test]
fn the_subquery_url_is_set_by_the_owner() {
    let mut relay = init();
    register(&mut relay, "one", 0);
    assert_eq!(
        relay.update_subql_url(&ctx("root", "root"), "one".to_string(), "https://subql".to_string()),
        Err(RelayError::NotOwner)
    );
    relay.update_subql_url(&owner(), "one".to_string(), "https://subql".to_string()).unwrap();
    assert_eq!(relay.get_appchain("one".to_string()).unwrap().unwrap().subql_url, "https://subql");
    assert_eq!(
        relay.update_subql_url(&owner(), "two".to_string(), "x".to_string()),
        Err(RelayError::AppchainNotFound)
    );
}

#[test]
fn a_failed_bond_transfer_leaves_the_appchain_in_staging() {
    let mut relay = init();
    register(&mut relay, "one", 30 * YOCTO);
    relay.pass_appchain(&owner(), "one".to_string()).unwrap();
    relay.appchain_go_staging(&owner(), "one".to_string()).unwrap();
    let r = relay.ft_on_transfer(&ctx(OCT, "root"), "root".to_string(), 10 * YOCTO, format!("stake,one,{}", ROOT_ADDRESS));
    assert!(matches!(r, Ok(PromiseOrValue::Value(0))));
    let status = relay
        .resolve_activate_appchain(
            &owner(),
            "one".to_string(),
            "nodes".to_string(),
            "rpc".to_string(),
            String::new(),
            String::new(),
            String::new(),
            String::new(),
            false,
        )
        .unwrap();
    assert_eq!(status, Some(AppchainStatus::Staging));
    let appchain = relay.get_appchain("one".to_string()).unwrap().unwrap();
    assert_eq!(appchain.status, AppchainStatus::Staging);
    assert_eq!(appchain.boot_nodes, "");
    assert_eq!(
        relay.resolve_activate_appchain(
            &ctx("root", "root"),
            "one".to_string(),
            String::new(),
            String::new(),
            String::new(),
            String::new(),
            String::new(),
            String::new(),
            true,
        ),
        Err(RelayError::NotSelf)
    );
    let booted = relay
        .resolve_activate_appchain(
            &owner(),
            "one".to_string(),
            "nodes".to_string(),
            "rpc".to_string(),
            "spec".to_string(),
            "hash".to_string(),
            "raw".to_string(),
            "raw_hash".to_string(),
            true,
        )
        .unwrap();
    assert_eq!(booted, Some(AppchainStatus::Booting));
    let appchain = relay.get_appchain("one".to_string()).unwrap().unwrap();
    assert_eq!(appchain.boot_nodes, "nodes");
    assert_eq!(appchain.chain_spec_raw_hash, "raw_hash");
    assert_eq!(appchain.validators_timestamp, 5_000);
    assert_eq!(relay.freeze_appchain(&owner(), "one".to_string()), Ok(()));
}

#[test]
fn validators_and_delegators_are_found_by_id() {
    let mut relay = init();
    register(&mut relay, "one", 0);
    relay.pass_appchain(&owner(), "one".to_string()).unwrap();
    relay.appchain_go_staging(&owner(), "one".to_string()).unwrap();
    let r = relay.ft_on_transfer(&ctx(OCT, "root"), "root".to_string(), 10 * YOCTO, format!("stake,one,{}", ROOT_ADDRESS));
    assert!(matches!(r, Ok(PromiseOrValue::Value(0))));
    let v = relay.get_validator("one".to_string(), ROOT_ADDRESS.to_string()).unwrap();
    assert_eq!(v.account_id, "root");
    assert_eq!(v.staked_amount, 10 * YOCTO);
    assert_eq!(v.block_height, 11);
    assert!(relay.get_validator("one".to_string(), "0xabc".to_string()).is_none());
    assert!(relay.get_delegator("one".to_string(), ROOT_ADDRESS.to_string(), "bob".to_string()).is_none());
    assert_eq!(relay.in_staking_period(&"one".to_string()), Ok(true));
    assert_eq!(relay.in_staking_period(&"two".to_string()), Err(RelayError::AppchainNotFound));
}
