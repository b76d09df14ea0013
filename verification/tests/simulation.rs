use octopus_relay::pipeline::AppchainPipeline;
use octopus_relay::bridge_token_manager::BridgeTokenManager;
use octopus_relay::error::RelayError;
use octopus_relay::promise::{CallMethod, PromiseAction, PromiseOrValue};
use octopus_relay::types::{AppchainStatus, BridgeStatus, Fact};
use octopus_relay::{Context, OctopusRelay};

const RELAY: &str = "octopus_relay";
const OCT: &str = "oct_token";
const B_TOKEN: &str = "b_token";
const YOCTO: u128 = 1_000_000_000_000_000_000_000_000;

fn ctx(predecessor: &str, signer: &str) -> Context {
    Context {
        predecessor_account_id: predecessor.to_string(),
        signer_account_id: signer.to_string(),
        current_account_id: RELAY.to_string(),
        block_index: 7,
        block_timestamp: 1_000,
        attached_deposit: 0,
        prepaid_gas: 300_000_000_000_000,
    }
}

fn to_yocto(amount: u128) -> u128 {
    amount * YOCTO
}

fn default_init() -> OctopusRelay {
    OctopusRelay::new(&ctx(RELAY, RELAY), false, OCT.to_string(), 2, to_yocto(100), 3333, 2000000).unwrap()
}

fn default_register_appchain(relay: &mut OctopusRelay) -> u128 {
    let transfer_amount = to_yocto(200);
    let r = relay.ft_on_transfer(
        &ctx(OCT, "root"),
        "root".to_string(),
        transfer_amount,
        "register_appchain,testchain,website_url_string,github_address_string,github_release_string,commit_id"
            .to_string(),
    );
    assert!(matches!(r, Ok(PromiseOrValue::Value(0))));
    transfer_amount
}

fn default_list_appchain(relay: &mut OctopusRelay) -> u128 {
    let transfer_amount = default_register_appchain(relay);
    relay.pass_appchain(&ctx(RELAY, RELAY), "testchain".to_string()).unwrap();
    relay.appchain_go_staging(&ctx(RELAY, RELAY), "testchain".to_string()).unwrap();
    transfer_amount
}

fn default_stake(relay: &mut OctopusRelay, user: &str) -> u128 {
    let transfer_amount = to_yocto(200);
    let msg = format!("stake,testchain,{}", user);
    let r = relay.ft_on_transfer(&ctx(OCT, user), user.to_string(), transfer_amount, msg);
    assert!(matches!(r, Ok(PromiseOrValue::Value(0))));
    transfer_amount
}

fn default_activate_appchain(relay: &mut OctopusRelay) {
    let boot_nodes = "[\"/ip4/13.230.75.107/tcp/30333/p2p/12D3KooWAxYKgdmTczLioD1jkzMyaDuV2Q5VHBsJxPr5zEmHr8nY\"]";
    let rpc_endpoint = "wss://barnacle.rpc.testnet.oct.network:9944";
    let r = relay.activate_appchain(
        &ctx(RELAY, RELAY),
        "testchain".to_string(),
        boot_nodes.to_string(),
        rpc_endpoint.to_string(),
        String::new(),
        String::new(),
        String::new(),
        String::new(),
    );
    assert!(matches!(r, Ok(PromiseOrValue::Promise(_))));
    let s = relay
        .resolve_activate_appchain(
            &ctx(RELAY, RELAY),
            "testchain".to_string(),
            boot_nodes.to_string(),
            rpc_endpoint.to_string(),
            String::new(),
            String::new(),
            String::new(),
            String::new(),
            true,
        )
        .unwrap();
    assert_eq!(s, Some(AppchainStatus::Booting));
}

fn default_update_appchain(relay: &mut OctopusRelay) {
    relay
        .update_appchain(
            &ctx("root", "root"),
            "testchain".to_string(),
            "website_url_string".to_string(),
            "github_address_url".to_string(),
            "github_release".to_string(),
            "commit_id".to_string(),
            "email".to_string(),
        )
        .unwrap();
}

fn default_register_bridge_token(relay: &mut OctopusRelay) {
    default_list_appchain(relay);
    default_stake(relay, "root");
    default_stake(relay, "alice");
    default_activate_appchain(relay);
    relay.register_bridge_token(&ctx(RELAY, RELAY), B_TOKEN.to_string(), "BTK".to_string(), 1000000, 12).unwrap();
}

fn default_set_bridge_permitted(relay: &mut OctopusRelay, permitted: bool) {
    relay
        .set_bridge_permitted(&ctx(RELAY, RELAY), B_TOKEN.to_string(), "testchain".to_string(), permitted)
        .unwrap();
}

fn to_decimals_amount(amount: u128, decimals: u32) -> u128 {
    amount * 10u128.pow(decimals)
}

fn lock_token(relay: &mut OctopusRelay, amount: u128) -> Vec<(u32, u128)> {
    let r = relay.ft_on_transfer(
        &ctx(B_TOKEN, "root"),
        "root".to_string(),
        to_decimals_amount(amount, 12),
        "lock_token,testchain,receiver_id".to_string(),
    );
    assert!(matches!(r, Ok(PromiseOrValue::Value(0))));
    let i = relay.appchain_states.find(&"testchain".to_string()).unwrap();
    let facts = relay.appchain_states.value_at(i).get_facts(0, 100).unwrap();
    let mut locked = Vec::new();
    for f in facts.iter() {
        if let Fact::LockToken(l) = f {
            locked.push((l.seq_num, l.amount));
        }
    }
    locked
}

#[test]
fn simulate_update_appchain() {
    let mut relay = default_init();
    default_list_appchain(&mut relay);
    default_stake(&mut relay, "root");
    default_stake(&mut relay, "alice");
    default_activate_appchain(&mut relay);
    default_update_appchain(&mut relay);
    let appchain = relay.get_appchain("testchain".to_string()).unwrap().unwrap();
    assert_eq!(appchain.github_address, "github_address_url");
    assert_eq!(appchain.github_release, "github_release");
    assert_eq!(appchain.rpc_endpoint, "wss://barnacle.rpc.testnet.oct.network:9944");
}

#[test]
fn simulate_register_appchain() {
    let mut relay = default_init();
    let transfer_amount = default_register_appchain(&mut relay);
    assert_eq!(relay.get_num_appchains(), 1);
    let appchain = relay.get_appchain("testchain".to_string()).unwrap().unwrap();
    assert_eq!(appchain.id, "testchain");
    assert_eq!(appchain.founder_id, "root");
    assert_eq!(appchain.website_url, "website_url_string");
    assert_eq!(appchain.email, "");
    assert_eq!(appchain.chain_spec_url, String::from(""));
    assert_eq!(appchain.chain_spec_hash, String::from(""));
    assert_eq!(appchain.chain_spec_raw_url, String::from(""));
    assert_eq!(appchain.chain_spec_raw_hash, String::from(""));
    assert_eq!(appchain.bond_tokens, transfer_amount);
    assert_eq!(appchain.block_height, 7);
    assert_eq!(appchain.validators.len(), 0);
    assert_eq!(appchain.status, AppchainStatus::Auditing);
}

#[test]
fn simulate_list_appchain() {
    let mut relay = default_init();
    let transfer_amount = default_list_appchain(&mut relay);
    assert_eq!(relay.get_num_appchains(), 1);
    let appchain = relay.get_appchain("testchain".to_string()).unwrap().unwrap();
    assert_eq!(appchain.id, "testchain");
    assert_eq!(appchain.founder_id, "root");
    // Listing here is passing the audit and going to staging: the chain specification is
    // given only on activation, so it is still empty, and the appchain is staging.
    assert_eq!(appchain.chain_spec_url, String::from(""));
    assert_eq!(appchain.chain_spec_hash, String::from(""));
    assert_eq!(appchain.chain_spec_raw_url, String::from(""));
    assert_eq!(appchain.chain_spec_raw_hash, String::from(""));
    assert_eq!(appchain.bond_tokens, transfer_amount);
    assert_eq!(appchain.validators.len(), 0);
    assert_eq!(appchain.status, AppchainStatus::Staging);
}

#[test]
fn simulate_stake() {
    let mut relay = default_init();
    default_list_appchain(&mut relay);
    let transfer_amount = default_stake(&mut relay, "root");
    let validators = relay.get_validators("testchain".to_string()).unwrap().unwrap();
    assert_eq!(validators.len(), 1);
    assert_eq!(validators[0].id, "root");
    assert_eq!(validators[0].account_id, "root");
    assert_eq!(validators[0].staked_amount, transfer_amount);
    assert_eq!(relay.get_total_staked_balance(), transfer_amount);
}

#[test]
fn scenario_activate_appchain() {
    let mut relay = default_init();
    default_list_appchain(&mut relay);
    default_stake(&mut relay, "root");
    default_stake(&mut relay, "alice");
    default_activate_appchain(&mut relay);
    let appchain = relay.get_appchain("testchain".to_string()).unwrap().unwrap();
    assert_eq!(appchain.status, AppchainStatus::Booting);
    assert_eq!(appchain.staked_balance, to_yocto(400));
}

#[test]
fn simulate_register_bridge_token() {
    let mut relay = default_init();
    default_register_bridge_token(&mut relay);
    let bridge_token = relay.get_bridge_token(B_TOKEN.to_string()).unwrap();
    assert_eq!(bridge_token.token_id, "b_token");
    assert_eq!(bridge_token.symbol, "BTK");
    assert_eq!(bridge_token.status, BridgeStatus::Active);
    assert_eq!(bridge_token.price, 1000000);
    assert_eq!(bridge_token.decimals, 12);
}

#[test]
fn simulate_set_bridge_permitted() {
    let mut relay = default_init();
    default_register_bridge_token(&mut relay);
    assert_eq!(
        relay.get_bridge_allowed_amount("testchain".to_string(), B_TOKEN.to_string()),
        Err(RelayError::BridgeNotAllowed)
    );
    default_set_bridge_permitted(&mut relay, true);
    let bridge_allowed = relay.get_bridge_allowed_amount("testchain".to_string(), B_TOKEN.to_string()).unwrap();
    assert_eq!(bridge_allowed, 2666400 * (10 as u128).pow(12) / 10000);
}

#[test]
fn simulate_lock_token() {
    let mut relay = default_init();
    default_register_bridge_token(&mut relay);
    default_set_bridge_permitted(&mut relay, true);

    let locked_events0 = lock_token(&mut relay, 100);
    let locked_events1 = lock_token(&mut relay, 160);

    assert_eq!(locked_events0.len(), 1);
    assert_eq!(locked_events1.len(), 2);
    let locked0 = locked_events0[0];
    let locked1 = locked_events1[1];
    assert_eq!(locked0.0, 0);
    assert_eq!(locked1.0, 1);
    assert_eq!(locked0.1, to_decimals_amount(100, 12));
    assert_eq!(locked1.1, to_decimals_amount(160, 12));
    let allowed = relay.get_bridge_allowed_amount("testchain".to_string(), B_TOKEN.to_string()).unwrap();
    assert_eq!(allowed, 2666400 * (10 as u128).pow(12) / 10000 - to_decimals_amount(260, 12));
}

#[test]
fn scenario_activation_sends_back_a_tenth_of_the_bond() {
    let mut relay = default_init();
    default_list_appchain(&mut relay);
    default_stake(&mut relay, "root");
    default_stake(&mut relay, "alice");
    let r = relay
        .activate_appchain(
            &ctx(RELAY, RELAY),
            "testchain".to_string(),
            "nodes".to_string(),
            "rpc".to_string(),
            String::new(),
            String::new(),
            String::new(),
            String::new(),
        )
        .unwrap();
    match r {
        PromiseOrValue::Promise(p) => {
            assert_eq!(p.len(), 2);
            match &p[0] {
                PromiseAction::Call { contract_id, method: CallMethod::FtTransfer { receiver_id, amount }, deposit, .. } => {
                    assert_eq!(contract_id, OCT);
                    assert_eq!(receiver_id, "root");
                    assert_eq!(*amount, to_yocto(20));
                    assert_eq!(*deposit, 1);
                },
                _ => panic!("expected a transfer of the bond"),
            }
            match &p[1] {
                PromiseAction::Call { method: CallMethod::ResolveActivateAppchain { appchain_id, .. }, gas, .. } => {
                    assert_eq!(appchain_id, "testchain");
                    assert_eq!(*gas, 150_000_000_000_000);
                },
                _ => panic!("expected the callback"),
            }
        },
        PromiseOrValue::Value(_) => panic!("expected promises"),
    }
    // Nothing changes until the callback.
    let appchain = relay.get_appchain("testchain".to_string()).unwrap().unwrap();
    assert_eq!(appchain.status, AppchainStatus::Staging);
}
