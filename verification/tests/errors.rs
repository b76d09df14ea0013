use octopus_relay::pipeline::AppchainPipeline;
use octopus_relay::bridge_token_manager::BridgeTokenManager;
use octopus_relay::bridging::TokenBridging;
use octopus_relay::error::RelayError;
use octopus_relay::native_token_manager::NativeTokenManager;
use octopus_relay::promise::PromiseOrValue;
use octopus_relay::{Context, OctopusRelay, Ownable};

const RELAY: &str = "octopus_relay";
const OCT: &str = "oct_token";
const B_TOKEN: &str = "b_token";
const YOCTO: u128 = 1_000_000_000_000_000_000_000_000;
const STORAGE_DEPOSIT: u128 = 1250000000000000000000;
const ROOT_ADDRESS: &str = "0x1111111111111111111111111111111111111111111111111111111111111111";
const ALICE_ADDRESS: &str = "0x2222222222222222222222222222222222222222222222222222222222222222";

fn ctx(predecessor: &str, signer: &str) -> Context {
    Context {
        predecessor_account_id: predecessor.to_string(),
        signer_account_id: signer.to_string(),
        current_account_id: RELAY.to_string(),
        block_index: 7,
        block_timestamp: 1_000,
        attached_deposit: 0,
        prepaid_gas: 300_000_000_000_000,
    }
}

fn owner() -> Context {
    ctx(RELAY, RELAY)
}

fn init() -> OctopusRelay {
    OctopusRelay::new(&owner(), false, OCT.to_string(), 2, 100 * YOCTO, 3333, 2000000).unwrap()
}

fn register(relay: &mut OctopusRelay, bond: u128) {
    let r = relay.ft_on_transfer(&ctx(OCT, "root"), "root".to_string(), bond, "register_appchain,testchain,w,g,r,c,e".to_string());
    assert!(matches!(r, Ok(PromiseOrValue::Value(0))));
}

fn stake(relay: &mut OctopusRelay, user: &str, address: &str, amount: u128) -> Result<PromiseOrValue<u128>, RelayError> {
    relay.ft_on_transfer(&ctx(OCT, user), user.to_string(), amount, format!("stake,testchain,{}", address))
}

fn staging() -> OctopusRelay {
    let mut relay = init();
    register(&mut relay, 0);
    relay.pass_appchain(&owner(), "testchain".to_string()).unwrap();
    relay.appchain_go_staging(&owner(), "testchain".to_string()).unwrap();
    relay
}

fn activate(relay: &mut OctopusRelay) -> Result<PromiseOrValue<Option<octopus_relay::types::AppchainStatus>>, RelayError> {
    relay.activate_appchain(
        &owner(),
        "testchain".to_string(),
        String::new(),
        String::new(),
        String::new(),
        String::new(),
        String::new(),
        String::new(),
    )
}

fn booting() -> OctopusRelay {
    let mut relay = staging();
    assert!(stake(&mut relay, "root", ROOT_ADDRESS, 200 * YOCTO).is_ok());
    assert!(stake(&mut relay, "alice", ALICE_ADDRESS, 200 * YOCTO).is_ok());
    assert!(activate(&mut relay).is_ok());
    relay
}

#[test]
fn initialization_refusals() {
    assert!(matches!(
        OctopusRelay::new(&owner(), true, OCT.to_string(), 2, 1, 1, 1),
        Err(RelayError::AlreadyInitialized)
    ));
    assert!(matches!(OctopusRelay::new(&ctx("bob", "bob"), false, OCT.to_string(), 2, 1, 1, 1), Err(RelayError::NotSelf)));
}

#[test]
fn only_the_owner_moves_the_pipeline() {
    let mut relay = init();
    register(&mut relay, 0);
    assert_eq!(relay.pass_appchain(&ctx("bob", "bob"), "testchain".to_string()), Err(RelayError::NotOwner));
    assert_eq!(relay.set_owner(&ctx("bob", "bob"), "bob".to_string()), Err(RelayError::NotOwner));
    assert_eq!(relay.get_owner(), RELAY);
}

#[test]
fn pipeline_refusals() {
    let mut relay = init();
    assert_eq!(relay.pass_appchain(&owner(), "nochain".to_string()), Err(RelayError::AppchainNotFound));
    register(&mut relay, 0);
    assert_eq!(relay.appchain_go_staging(&owner(), "testchain".to_string()), Err(RelayError::NotInVoting));
    assert!(matches!(activate(&mut relay), Err(RelayError::NotInStaging)));
    relay.pass_appchain(&owner(), "testchain".to_string()).unwrap();
    assert_eq!(relay.pass_appchain(&owner(), "testchain".to_string()), Err(RelayError::NotInAuditing));
    assert!(matches!(relay.remove_appchain(&owner(), "testchain".to_string()), Err(RelayError::NotInAuditing)));
    relay.appchain_go_staging(&owner(), "testchain".to_string()).unwrap();
    assert!(matches!(activate(&mut relay), Err(RelayError::InsufficientValidators)));
    assert_eq!(relay.freeze_appchain(&owner(), "testchain".to_string()), Err(RelayError::NotBooting));
}

#[test]
fn registration_refusals() {
    let mut relay = init();
    let from_other = relay.ft_on_transfer(&ctx("other", "root"), "root".to_string(), 1, "register_appchain,a,b,c,d,e,f".to_string());
    assert!(matches!(from_other, Err(RelayError::NotOctToken)));
    let short = relay.ft_on_transfer(&ctx(OCT, "root"), "root".to_string(), 1, "register_appchain,a,b".to_string());
    assert!(matches!(short, Err(RelayError::WrongParamsLength)));
    register(&mut relay, 0);
    let again = relay.ft_on_transfer(&ctx(OCT, "root"), "root".to_string(), 1, "register_appchain,testchain,w,g,r,c,e".to_string());
    assert!(matches!(again, Err(RelayError::AppchainAlreadyRegistered)));
    assert_eq!(relay.get_num_appchains(), 1);
}

#[test]
fn unknown_actions_hand_the_amount_back() {
    let mut relay = init();
    let r = relay.ft_on_transfer(&ctx(OCT, "root"), "root".to_string(), 42, "buy_pizza,now".to_string());
    assert!(matches!(r, Ok(PromiseOrValue::Value(42))));
    assert_eq!(relay.get_num_appchains(), 0);
}

#[test]
fn staking_refusals() {
    let mut relay = init();
    register(&mut relay, 0);
    assert!(matches!(stake(&mut relay, "root", ROOT_ADDRESS, 200 * YOCTO), Err(RelayError::NotInStakingPeriod)));
    relay.pass_appchain(&owner(), "testchain".to_string()).unwrap();
    relay.appchain_go_staging(&owner(), "testchain".to_string()).unwrap();
    assert!(matches!(stake(&mut relay, "root", ROOT_ADDRESS, 99 * YOCTO), Err(RelayError::InsufficientStakingAmount)));
    assert!(stake(&mut relay, "root", ROOT_ADDRESS, 200 * YOCTO).is_ok());
    assert!(matches!(stake(&mut relay, "root", ALICE_ADDRESS, 200 * YOCTO), Err(RelayError::AccountAlreadyStaked)));
    assert!(matches!(stake(&mut relay, "alice", ROOT_ADDRESS, 200 * YOCTO), Err(RelayError::ValidatorAlreadyStaked)));
    let more = relay.ft_on_transfer(&ctx(OCT, "carol"), "carol".to_string(), 5, "stake_more,testchain".to_string());
    assert!(matches!(more, Err(RelayError::NotStaking)));
    let wrong = relay.ft_on_transfer(&ctx(OCT, "carol"), "carol".to_string(), 5, "stake,testchain".to_string());
    assert!(matches!(wrong, Err(RelayError::WrongParamsLength)));
    assert!(matches!(relay.unstake(&ctx("carol", "carol"), "testchain".to_string()), Err(RelayError::NotStaking)));
    assert!(matches!(
        relay.remove_validator(&owner(), "testchain".to_string(), ALICE_ADDRESS.to_string()),
        Err(RelayError::ValidatorNotExists)
    ));
}

#[test]
fn update_refusals() {
    let mut relay = staging();
    let update = |relay: &mut OctopusRelay, who: &str| {
        relay.update_appchain(
            &ctx(who, who),
            "testchain".to_string(),
            "w".to_string(),
            "g".to_string(),
            "r".to_string(),
            "c".to_string(),
            "e".to_string(),
        )
    };
    assert_eq!(update(&mut relay, "root"), Err(RelayError::CannotUpdateAtCurrentStatus));
    assert!(stake(&mut relay, "root", ROOT_ADDRESS, 200 * YOCTO).is_ok());
    assert!(stake(&mut relay, "alice", ALICE_ADDRESS, 200 * YOCTO).is_ok());
    assert!(activate(&mut relay).is_ok());
    assert_eq!(update(&mut relay, "alice"), Err(RelayError::NotFounder));
    assert_eq!(update(&mut relay, "root"), Ok(()));
}

#[test]
fn bridge_token_refusals() {
    let mut relay = booting();
    assert_eq!(relay.pause_bridge_token(&owner(), B_TOKEN.to_string()), Err(RelayError::TokenNotRegistered));
    // The owner is checked first.
    assert_eq!(relay.pause_bridge_token(&ctx("bob", "bob"), B_TOKEN.to_string()), Err(RelayError::NotOwner));
    assert_eq!(relay.resume_bridge_token(&ctx("bob", "bob"), B_TOKEN.to_string()), Err(RelayError::NotOwner));
    assert_eq!(
        relay.get_bridge_allowed_amount("testchain".to_string(), B_TOKEN.to_string()),
        Err(RelayError::TokenNotRegistered)
    );
    relay.register_bridge_token(&owner(), B_TOKEN.to_string(), "BTK".to_string(), 1000000, 12).unwrap();
    assert_eq!(
        relay.register_bridge_token(&owner(), B_TOKEN.to_string(), "XYZ".to_string(), 1, 1),
        Err(RelayError::TokenAlreadyRegistered)
    );
    assert_eq!(
        relay.register_bridge_token(&owner(), "c_token".to_string(), "BTK".to_string(), 1, 1),
        Err(RelayError::SymbolAlreadyRegistered)
    );
    assert_eq!(relay.resume_bridge_token(&owner(), B_TOKEN.to_string()), Err(RelayError::BridgeAlreadyActive));
    assert_eq!(relay.pause_bridge_token(&ctx("bob", "bob"), B_TOKEN.to_string()), Err(RelayError::NotOwner));
    relay.pause_bridge_token(&owner(), B_TOKEN.to_string()).unwrap();
    assert_eq!(relay.pause_bridge_token(&owner(), B_TOKEN.to_string()), Err(RelayError::BridgeAlreadyPaused));
    relay.set_bridge_permitted(&owner(), B_TOKEN.to_string(), "testchain".to_string(), true).unwrap();
    assert_eq!(
        relay.get_bridge_allowed_amount("testchain".to_string(), B_TOKEN.to_string()),
        Err(RelayError::BridgeNotAllowed)
    );
    assert_eq!(
        relay.lock_token("testchain".to_string(), "r".to_string(), "s".to_string(), B_TOKEN.to_string(), 1),
        Err(RelayError::BridgeNotAllowed)
    );
    relay.resume_bridge_token(&owner(), B_TOKEN.to_string()).unwrap();
    relay.set_bridge_token_price(&owner(), B_TOKEN.to_string(), 0).unwrap();
    assert_eq!(
        relay.get_bridge_allowed_amount("testchain".to_string(), B_TOKEN.to_string()),
        Err(RelayError::ZeroTokenPrice)
    );
    relay.set_bridge_token_price(&owner(), B_TOKEN.to_string(), 1000000).unwrap();
    relay.set_oct_token_price(&owner(), u128::MAX).unwrap();
    assert_eq!(
        relay.get_bridge_allowed_amount("testchain".to_string(), B_TOKEN.to_string()),
        Err(RelayError::ArithmeticOverflow)
    );
    assert_eq!(
        relay.get_bridge_allowed_amount("nochain".to_string(), B_TOKEN.to_string()),
        Err(RelayError::AppchainNotFound)
    );
}

#[test]
fn the_bridge_needs_a_booting_appchain() {
    let mut relay = staging();
    relay.register_bridge_token(&owner(), B_TOKEN.to_string(), "BTK".to_string(), 1000000, 12).unwrap();
    relay.set_bridge_permitted(&owner(), B_TOKEN.to_string(), "testchain".to_string(), true).unwrap();
    assert_eq!(
        relay.get_bridge_allowed_amount("testchain".to_string(), B_TOKEN.to_string()),
        Err(RelayError::NotBooting)
    );
}

#[test]
fn unlock_refusals() {
    let mut relay = booting();
    relay.register_bridge_token(&owner(), B_TOKEN.to_string(), "BTK".to_string(), 1000000, 12).unwrap();
    relay.set_bridge_permitted(&owner(), B_TOKEN.to_string(), "testchain".to_string(), true).unwrap();
    let unlock = |relay: &OctopusRelay, c: &Context, amount: u128| {
        relay
            .unlock_token(c, "testchain".to_string(), B_TOKEN.to_string(), "s".to_string(), "bob".to_string(), amount)
            .map(|p| p.len())
    };
    assert_eq!(unlock(&relay, &ctx("bob", "bob"), 1), Err(RelayError::NotSelf));
    assert_eq!(unlock(&relay, &owner(), 1), Err(RelayError::NothingLocked));
    relay.lock_token("testchain".to_string(), "r".to_string(), "s".to_string(), B_TOKEN.to_string(), 10).unwrap();
    assert_eq!(unlock(&relay, &owner(), 11), Err(RelayError::InsufficientLockedBalance));
    let mut starved = owner();
    starved.prepaid_gas = 1;
    assert_eq!(unlock(&relay, &starved, 10), Err(RelayError::ArithmeticOverflow));
    assert_eq!(unlock(&relay, &owner(), 10), Ok(2));
    assert_eq!(
        relay.resolve_unlock_token(&owner(), B_TOKEN.to_string(), "testchain".to_string(), 10, false),
        Err(RelayError::PromiseFailed)
    );
    assert_eq!(
        relay.resolve_unlock_token(&owner(), B_TOKEN.to_string(), "testchain".to_string(), 11, true),
        Err(RelayError::InsufficientLockedBalance)
    );
    assert_eq!(
        relay.resolve_unlock_token(&ctx("bob", "bob"), B_TOKEN.to_string(), "testchain".to_string(), 10, true),
        Err(RelayError::NotSelf)
    );
    assert_eq!(
        relay.resolve_unlock_token(&owner(), B_TOKEN.to_string(), "nochain".to_string(), 10, true),
        Err(RelayError::AppchainNotFound)
    );
}

#[test]
fn native_token_refusals() {
    let mut relay = booting();
    let mut with_deposit = owner();
    with_deposit.attached_deposit = STORAGE_DEPOSIT;
    assert_eq!(
        relay.mint_native_token(&with_deposit, "testchain".to_string(), "bob".to_string(), 1).map(|p| p.len()),
        Err(RelayError::NativeTokenNotRegistered)
    );
    assert_eq!(
        relay.mint_native_token(&owner(), "testchain".to_string(), "bob".to_string(), 1).map(|p| p.len()),
        Err(RelayError::WrongDeposit)
    );
    assert_eq!(
        relay.burn_native_token(&owner(), "testchain".to_string(), "r".to_string(), 1).map(|p| p.len()),
        Err(RelayError::WrongDeposit)
    );
    relay.register_native_token(&owner(), "testchain".to_string(), "native".to_string()).unwrap();
    assert_eq!(
        relay.register_native_token(&owner(), "testchain".to_string(), "other".to_string()),
        Err(RelayError::NativeTokenAlreadyRegistered)
    );
    assert_eq!(
        relay.register_native_token(&ctx("bob", "bob"), "otherchain".to_string(), "other".to_string()),
        Err(RelayError::NotOwner)
    );
    assert_eq!(
        relay.resolve_mint_native_token(&owner(), "testchain".to_string(), false),
        Err(RelayError::PromiseFailed)
    );
}

#[test]
fn decoding_and_facts_refusals() {
    let relay = booting();
    assert_eq!(
        relay.relay(&owner(), "testchain".to_string(), vec![9, 9, 9], Vec::new(), Vec::new(), Vec::new()).map(|p| p.len()),
        Err(RelayError::DecodeFailed)
    );
    assert_eq!(
        relay.relay(&owner(), "nochain".to_string(), Vec::new(), Vec::new(), Vec::new(), Vec::new()).map(|p| p.len()),
        Err(RelayError::AppchainNotFound)
    );
    let i = relay.appchain_states.find(&"testchain".to_string()).unwrap();
    assert_eq!(
        relay.appchain_states.value_at(i).get_facts(5, 1).map(|f| f.len()),
        Err(RelayError::InvalidFactsStart)
    );
}
