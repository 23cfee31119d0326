use cosmwasm_std::testing::{MockApi, MockStorage};
use tipping_profiles::contract::{
    add_admin_checked, execute, execute_add_admin, execute_record_tip,
    execute_register_profile, execute_remove_admin, execute_update_profile, instantiate,
    instantiate_checked, is_admin, query, remove_admin_checked,
};
use tipping_profiles::msg::{
    Env, ExecuteMsg, InstantiateMsg, MessageInfo, QueryMsg, QueryResponse, Response,
};
use tipping_profiles::state::{Timestamp, UserProfile};
use tipping_profiles::store::Store;
use tipping_profiles::ContractError;

fn env(nanos: u64) -> Env {
    Env { time: Timestamp::from_nanos(nanos) }
}

fn info(sender: &str) -> MessageInfo {
    MessageInfo { sender: sender.to_string() }
}

fn register(username: &str) -> ExecuteMsg {
    ExecuteMsg::RegisterProfile {
        username: username.to_string(),
        name: format!("{} name", username),
        bio: Some("bio".to_string()),
        profile_picture: None,
        banner_image: None,
        twitter: Some("@handle".to_string()),
        website: None,
    }
}

fn tip(to: &str, amount: &str) -> ExecuteMsg {
    ExecuteMsg::RecordTip {
        to_username: to.to_string(),
        amount: amount.to_string(),
        message: Some("thanks".to_string()),
    }
}

fn setup(store: &mut Store) {
    instantiate(
        store,
        &env(1),
        &info("creator"),
        InstantiateMsg { admin: "admin".to_string() },
    )
    .unwrap();
}

fn attributes(response: Response) -> Vec<(String, String)> {
    response.attributes.into_iter().map(|a| (a.key, a.value)).collect()
}

fn pair(key: &str, value: &str) -> (String, String) {
    (key.to_string(), value.to_string())
}

fn profile(store: &Store, username: &str) -> Option<UserProfile> {
    match query(store, &env(1), QueryMsg::GetProfile { username: username.to_string() }).unwrap()
    {
        QueryResponse::Profile(r) => r.profile,
        _ => unreachable!(),
    }
}

fn admin(store: &Store, address: &str) -> bool {
    match query(store, &env(1), QueryMsg::IsAdmin { address: address.to_string() }).unwrap() {
        QueryResponse::Admin(r) => r.is_admin,
        _ => unreachable!(),
    }
}

#[test]
fn instantiate_makes_admin_and_creator_admins() {
    let mut storage = MockStorage::new();
    let api = MockApi::default();
    let mut store = Store { storage: &mut storage, api: &api };
    let response = instantiate(
        &mut store,
        &env(1),
        &info("creator"),
        InstantiateMsg { admin: "admin".to_string() },
    )
    .unwrap();
    assert_eq!(
        attributes(response),
        vec![pair("method", "instantiate"), pair("admin", "admin"), pair("creator", "creator")]
    );
    assert!(admin(&store, "admin"));
    assert!(admin(&store, "creator"));
    assert!(!admin(&store, "stranger"));
    assert_eq!(is_admin(&store, "admin"), Ok(true));
    assert_eq!(is_admin(&store, "stranger"), Ok(false));
}

#[test]
fn instantiate_with_creator_as_admin_makes_one_admin() {
    let mut storage = MockStorage::new();
    let api = MockApi::default();
    let mut store = Store { storage: &mut storage, api: &api };
    instantiate(
        &mut store,
        &env(1),
        &info("creator"),
        InstantiateMsg { admin: "creator".to_string() },
    )
    .unwrap();
    assert!(admin(&store, "creator"));
    let removal = execute(
        &mut store,
        &env(2),
        &info("creator"),
        ExecuteMsg::RemoveAdmin { admin: "creator".to_string() },
    );
    assert_eq!(
        removal,
        Err(ContractError::CustomError { message: "Cannot remove the last admin".to_string() })
    );
    assert!(admin(&store, "creator"));
}

#[test]
fn instantiate_refuses_an_address_that_the_host_rejects() {
    let mut storage = MockStorage::new();
    let api = MockApi::default();
    let mut store = Store { storage: &mut storage, api: &api };
    let result = instantiate(
        &mut store,
        &env(1),
        &info("creator"),
        InstantiateMsg { admin: "NotNormal".to_string() },
    );
    assert!(matches!(result, Err(ContractError::Std(_))));
    assert!(!admin(&store, "creator"));
}

#[test]
fn two_usernames_from_two_wallets_register() {
    let mut storage = MockStorage::new();
    let api = MockApi::default();
    let mut store = Store { storage: &mut storage, api: &api };
    setup(&mut store);
    let first = execute(&mut store, &env(10), &info("wallet1"), register("alice")).unwrap();
    assert_eq!(
        attributes(first),
        vec![
            pair("method", "register_profile"),
            pair("username", "alice"),
            pair("wallet", "wallet1"),
        ]
    );
    execute(&mut store, &env(11), &info("wallet2"), register("bob_99")).unwrap();
    let again = execute(&mut store, &env(12), &info("wallet3"), register("alice"));
    assert_eq!(again, Err(ContractError::UsernameExists { username: "alice".to_string() }));
    let stored = profile(&store, "alice").unwrap();
    assert_eq!(
        stored,
        UserProfile {
            username: "alice".to_string(),
            name: "alice name".to_string(),
            bio: Some("bio".to_string()),
            profile_picture: None,
            banner_image: None,
            twitter: Some("@handle".to_string()),
            website: None,
            wallet_address: "wallet1".to_string(),
            created_at: Timestamp::from_nanos(10),
            updated_at: Timestamp::from_nanos(10),
        }
    );
    assert_eq!(profile(&store, "bob_99").unwrap().wallet_address, "wallet2");
    assert_eq!(profile(&store, "carol"), None);
}

#[test]
fn a_wallet_registers_one_username_only() {
    let mut storage = MockStorage::new();
    let api = MockApi::default();
    let mut store = Store { storage: &mut storage, api: &api };
    setup(&mut store);
    execute(&mut store, &env(10), &info("wallet1"), register("alice")).unwrap();
    let second = execute(&mut store, &env(11), &info("wallet1"), register("alice2"));
    assert_eq!(
        second,
        Err(ContractError::WalletAlreadyRegistered { username: "alice".to_string() })
    );
    assert_eq!(profile(&store, "alice2"), None);
}

#[test]
fn a_taken_username_is_reported_before_a_registered_wallet() {
    let mut storage = MockStorage::new();
    let api = MockApi::default();
    let mut store = Store { storage: &mut storage, api: &api };
    setup(&mut store);
    execute(&mut store, &env(10), &info("wallet1"), register("alice")).unwrap();
    let again = execute(&mut store, &env(11), &info("wallet1"), register("alice"));
    assert_eq!(again, Err(ContractError::UsernameExists { username: "alice".to_string() }));
}

#[test]
fn registration_checks_the_username() {
    let mut storage = MockStorage::new();
    let api = MockApi::default();
    let mut store = Store { storage: &mut storage, api: &api };
    setup(&mut store);
    let short = execute(&mut store, &env(10), &info("wallet1"), register("ab"));
    assert_eq!(short, Err(ContractError::UsernameTooShortOrLong {}));
    let bad = execute(&mut store, &env(10), &info("wallet1"), register("alice!"));
    assert_eq!(bad, Err(ContractError::InvalidUsername { username: "alice!".to_string() }));
    execute(&mut store, &env(10), &info("wallet1"), register("alice_99")).unwrap();
    assert!(profile(&store, "alice_99").is_some());
}

#[test]
fn register_profile_called_directly() {
    let mut storage = MockStorage::new();
    let api = MockApi::default();
    let mut store = Store { storage: &mut storage, api: &api };
    execute_register_profile(
        &mut store,
        &env(5),
        &info("wallet1"),
        "dave".to_string(),
        "Dave".to_string(),
        None,
        Some("pic".to_string()),
        Some("banner".to_string()),
        None,
        Some("https://dave.example".to_string()),
    )
    .unwrap();
    let stored = profile(&store, "dave").unwrap();
    assert_eq!(stored.name, "Dave");
    assert_eq!(stored.bio, None);
    assert_eq!(stored.profile_picture, Some("pic".to_string()));
    assert_eq!(stored.banner_image, Some("banner".to_string()));
    assert_eq!(stored.twitter, None);
    assert_eq!(stored.website, Some("https://dave.example".to_string()));
}

#[test]
fn only_owner_or_admin_updates() {
    let mut storage = MockStorage::new();
    let api = MockApi::default();
    let mut store = Store { storage: &mut storage, api: &api };
    setup(&mut store);
    execute(&mut store, &env(10), &info("wallet1"), register("alice")).unwrap();
    let update = ExecuteMsg::UpdateProfile {
        username: "alice".to_string(),
        name: Some("Alice".to_string()),
        bio: None,
        profile_picture: Some("pic".to_string()),
        banner_image: None,
        twitter: Some("".to_string()),
        website: None,
    };
    let stranger = execute(&mut store, &env(20), &info("wallet2"), update.clone());
    assert_eq!(stranger, Err(ContractError::Unauthorized {}));
    assert_eq!(profile(&store, "alice").unwrap().name, "alice name");

    let owner = execute(&mut store, &env(21), &info("wallet1"), update).unwrap();
    assert_eq!(
        attributes(owner),
        vec![pair("method", "update_profile"), pair("username", "alice")]
    );
    assert_eq!(
        profile(&store, "alice").unwrap(),
        UserProfile {
            username: "alice".to_string(),
            name: "Alice".to_string(),
            bio: Some("bio".to_string()),
            profile_picture: Some("pic".to_string()),
            banner_image: None,
            twitter: Some("".to_string()),
            website: None,
            wallet_address: "wallet1".to_string(),
            created_at: Timestamp::from_nanos(10),
            updated_at: Timestamp::from_nanos(21),
        }
    );

    execute_update_profile(
        &mut store,
        &env(22),
        &info("admin"),
        "alice".to_string(),
        None,
        Some("by admin".to_string()),
        None,
        None,
        None,
        None,
    )
    .unwrap();
    let after = profile(&store, "alice").unwrap();
    assert_eq!(after.name, "Alice");
    assert_eq!(after.bio, Some("by admin".to_string()));
    assert_eq!(after.wallet_address, "wallet1");
    assert_eq!(after.updated_at, Timestamp::from_nanos(22));
}

#[test]
fn update_of_unknown_username_fails() {
    let mut storage = MockStorage::new();
    let api = MockApi::default();
    let mut store = Store { storage: &mut storage, api: &api };
    setup(&mut store);
    let result = execute_update_profile(
        &mut store,
        &env(22),
        &info("admin"),
        "nobody".to_string(),
        None,
        None,
        None,
        None,
        None,
        None,
    );
    assert_eq!(result, Err(ContractError::UsernameNotFound { username: "nobody".to_string() }));
}

#[test]
fn self_tip_is_rejected() {
    let mut storage = MockStorage::new();
    let api = MockApi::default();
    let mut store = Store { storage: &mut storage, api: &api };
    setup(&mut store);
    execute(&mut store, &env(10), &info("wallet1"), register("alice")).unwrap();
    assert_eq!(
        execute(&mut store, &env(11), &info("wallet1"), tip("alice", "5uxion")),
        Err(ContractError::SelfTipping {})
    );
    assert_eq!(
        execute_record_tip(
            &mut store,
            &env(12),
            &info("wallet1"),
            "alice".to_string(),
            "".to_string(),
            None
        ),
        Err(ContractError::SelfTipping {})
    );
}

#[test]
fn tip_needs_registered_sender_and_recipient() {
    let mut storage = MockStorage::new();
    let api = MockApi::default();
    let mut store = Store { storage: &mut storage, api: &api };
    setup(&mut store);
    execute(&mut store, &env(10), &info("wallet1"), register("alice")).unwrap();
    assert_eq!(
        execute(&mut store, &env(11), &info("wallet9"), tip("alice", "5uxion")),
        Err(ContractError::CustomError {
            message: "Sender wallet address not registered with a profile".to_string()
        })
    );
    assert_eq!(
        execute(&mut store, &env(11), &info("wallet1"), tip("bob", "5uxion")),
        Err(ContractError::UsernameNotFound { username: "bob".to_string() })
    );
}

#[test]
fn tip_reports_its_attributes() {
    let mut storage = MockStorage::new();
    let api = MockApi::default();
    let mut store = Store { storage: &mut storage, api: &api };
    setup(&mut store);
    execute(&mut store, &env(10), &info("wallet1"), register("alice")).unwrap();
    execute(&mut store, &env(11), &info("wallet2"), register("bob")).unwrap();
    let response =
        execute(&mut store, &env(1_571_797_419_879_305_533), &info("wallet1"), tip("bob", "5uxion"))
            .unwrap();
    assert_eq!(
        attributes(response),
        vec![
            pair("method", "record_tip"),
            pair("from", "alice"),
            pair("to", "bob"),
            pair("timestamp", "1571797419.879305533"),
        ]
    );
}

#[test]
fn admins_are_added_once() {
    let mut storage = MockStorage::new();
    let api = MockApi::default();
    let mut store = Store { storage: &mut storage, api: &api };
    instantiate(
        &mut store,
        &env(1),
        &info("creator"),
        InstantiateMsg { admin: "creator".to_string() },
    )
    .unwrap();
    let add = ExecuteMsg::AddAdmin { admin: "second".to_string() };
    let response = execute(&mut store, &env(2), &info("creator"), add.clone()).unwrap();
    assert_eq!(attributes(response), vec![pair("method", "add_admin"), pair("admin", "second")]);
    execute(&mut store, &env(3), &info("creator"), add).unwrap();
    assert!(admin(&store, "second"));

    // two admins: one removal succeeds, the next is refused
    let removed = execute_remove_admin(&mut store, &info("creator"), "second".to_string()).unwrap();
    assert_eq!(
        attributes(removed),
        vec![pair("method", "remove_admin"), pair("admin", "second")]
    );
    assert!(!admin(&store, "second"));
    assert!(admin(&store, "creator"));
    assert_eq!(
        execute_remove_admin(&mut store, &info("creator"), "creator".to_string()),
        Err(ContractError::CustomError { message: "Cannot remove the last admin".to_string() })
    );
    assert!(admin(&store, "creator"));
}

#[test]
fn admin_changes_need_an_admin() {
    let mut storage = MockStorage::new();
    let api = MockApi::default();
    let mut store = Store { storage: &mut storage, api: &api };
    setup(&mut store);
    assert_eq!(
        execute_add_admin(&mut store, &info("stranger"), "friend".to_string()),
        Err(ContractError::Unauthorized {})
    );
    assert_eq!(
        execute_remove_admin(&mut store, &info("stranger"), "admin".to_string()),
        Err(ContractError::Unauthorized {})
    );
    // the sender is judged before the address
    assert_eq!(
        execute_add_admin(&mut store, &info("stranger"), "X".to_string()),
        Err(ContractError::Unauthorized {})
    );
    assert!(matches!(
        execute_add_admin(&mut store, &info("admin"), "X".to_string()),
        Err(ContractError::Std(_))
    ));
    assert!(!admin(&store, "friend"));
    assert!(admin(&store, "admin"));
}

#[test]
fn removing_a_wallet_that_is_no_admin_changes_nothing() {
    let mut storage = MockStorage::new();
    let api = MockApi::default();
    let mut store = Store { storage: &mut storage, api: &api };
    setup(&mut store);
    execute_remove_admin(&mut store, &info("admin"), "stranger".to_string()).unwrap();
    assert!(admin(&store, "admin"));
    assert!(admin(&store, "creator"));
}

#[test]
fn error_messages() {
    assert_eq!(ContractError::Unauthorized {}.message(), "Unauthorized");
    assert_eq!(
        ContractError::UsernameExists { username: "alice".to_string() }.message(),
        "Username 'alice' already exists"
    );
    assert_eq!(
        ContractError::UsernameNotFound { username: "bob".to_string() }.message(),
        "Username 'bob' not found"
    );
    assert_eq!(
        ContractError::InvalidUsername { username: "a!".to_string() }.message(),
        "Username 'a!' contains invalid characters. Usernames must contain only letters, numbers, underscores, and hyphens"
    );
    assert_eq!(
        ContractError::UsernameTooShortOrLong {}.message(),
        "Username must be between 3 and 30 characters"
    );
    assert_eq!(ContractError::SelfTipping {}.message(), "Cannot tip yourself");
    assert_eq!(
        ContractError::WalletAlreadyRegistered { username: "alice".to_string() }.message(),
        "Wallet address already registered with username 'alice'"
    );
    assert_eq!(ContractError::TipRecordNotFound {}.message(), "Tip record not found");
    assert_eq!(
        ContractError::MissingField { field: "name".to_string() }.message(),
        "Missing or invalid field: name"
    );
    assert_eq!(
        ContractError::CustomError { message: "why".to_string() }.message(),
        "Custom Error: why"
    );
    assert_eq!(
        ContractError::Std(cosmwasm_std::StdError::generic_err("broken")).message(),
        "Generic error: broken"
    );
}

#[test]
fn stored_text_comes_back_as_it_was() {
    let mut storage = MockStorage::new();
    let api = MockApi::default();
    let mut store = Store { storage: &mut storage, api: &api };
    let odd = "quote \" backslash \\ slash / tab \t newline \n nul \u{0} bell \u{7} é € 𝄞 null";
    execute_register_profile(
        &mut store,
        &env(5),
        &info("wallet1"),
        "odd".to_string(),
        odd.to_string(),
        Some("null".to_string()),
        Some("".to_string()),
        None,
        Some("[1,2]".to_string()),
        Some("{\"a\":1}".to_string()),
    )
    .unwrap();
    let stored = profile(&store, "odd").unwrap();
    assert_eq!(stored.name, odd);
    assert_eq!(stored.bio, Some("null".to_string()));
    assert_eq!(stored.profile_picture, Some("".to_string()));
    assert_eq!(stored.banner_image, None);
    assert_eq!(stored.twitter, Some("[1,2]".to_string()));
    assert_eq!(stored.website, Some("{\"a\":1}".to_string()));
    assert_eq!(stored.created_at, Timestamp::from_nanos(5));

    execute(&mut store, &env(u64::MAX), &info("wallet2"), register("other")).unwrap();
    assert_eq!(profile(&store, "other").unwrap().created_at, Timestamp::from_nanos(u64::MAX));
    execute(&mut store, &env(u64::MAX), &info("wallet1"), ExecuteMsg::RecordTip {
        to_username: "other".to_string(),
        amount: odd.to_string(),
        message: Some(odd.to_string()),
    })
    .unwrap();
    match query(&store, &env(1), QueryMsg::GetTipDetail {
        from_username: "odd".to_string(),
        to_username: "other".to_string(),
        timestamp: Timestamp::from_nanos(u64::MAX),
    })
    .unwrap()
    {
        QueryResponse::TipDetail(r) => {
            let tip = r.tip.unwrap();
            assert_eq!(tip.amount, odd);
            assert_eq!(tip.message, Some(odd.to_string()));
            assert_eq!(tip.timestamp, Timestamp::from_nanos(u64::MAX));
        }
        _ => unreachable!(),
    }
}

#[test]
fn the_host_checks_addresses() {
    let mut storage = MockStorage::new();
    let api = MockApi::default();
    let store = Store { storage: &mut storage, api: &api };
    assert_eq!(tipping_profiles::helpers::addr_validate(&store, "wallet1"), Ok("wallet1".to_string()));
    assert!(tipping_profiles::helpers::addr_validate(&store, "").is_err());
    assert!(tipping_profiles::helpers::addr_validate(&store, "Wallet1").is_err());
}

fn refused() -> cosmwasm_std::StdError {
    cosmwasm_std::StdError::generic_err("no address")
}

#[test]
fn instantiation_follows_the_hosts_answer() {
    let mut storage = MockStorage::new();
    let api = MockApi::default();
    let mut store = Store { storage: &mut storage, api: &api };
    let msg = InstantiateMsg { admin: "admin".to_string() };
    assert_eq!(
        instantiate_checked(&mut store, &env(1), &info("creator"), msg.clone(), Err(refused())),
        Err(ContractError::Std(refused()))
    );
    assert!(!admin(&store, "creator"));
    assert!(!admin(&store, "admin"));
    let response =
        instantiate_checked(&mut store, &env(1), &info("creator"), msg, Ok("admin".to_string()))
            .unwrap();
    assert_eq!(
        attributes(response),
        vec![pair("method", "instantiate"), pair("admin", "admin"), pair("creator", "creator")]
    );
    assert!(admin(&store, "creator"));
    assert!(admin(&store, "admin"));
}

#[test]
fn adding_an_admin_follows_the_hosts_answer() {
    let mut storage = MockStorage::new();
    let api = MockApi::default();
    let mut store = Store { storage: &mut storage, api: &api };
    setup(&mut store);
    // a stranger is refused whatever the host said
    assert_eq!(
        add_admin_checked(&mut store, &info("stranger"), "friend".to_string(), Err(refused())),
        Err(ContractError::Unauthorized {})
    );
    assert_eq!(
        add_admin_checked(
            &mut store,
            &info("stranger"),
            "friend".to_string(),
            Ok("friend".to_string())
        ),
        Err(ContractError::Unauthorized {})
    );
    assert_eq!(
        add_admin_checked(&mut store, &info("admin"), "friend".to_string(), Err(refused())),
        Err(ContractError::Std(refused()))
    );
    assert!(!admin(&store, "friend"));
    let response = add_admin_checked(
        &mut store,
        &info("admin"),
        "friend".to_string(),
        Ok("friend".to_string()),
    )
    .unwrap();
    assert_eq!(attributes(response), vec![pair("method", "add_admin"), pair("admin", "friend")]);
    assert!(admin(&store, "friend"));
    // once more: no error, and one removal is enough to undo it
    add_admin_checked(&mut store, &info("admin"), "friend".to_string(), Ok("friend".to_string()))
        .unwrap();
    remove_admin_checked(
        &mut store,
        &info("admin"),
        "friend".to_string(),
        Ok("friend".to_string()),
    )
    .unwrap();
    assert!(!admin(&store, "friend"));
}

#[test]
fn removing_an_admin_follows_the_hosts_answer() {
    let mut storage = MockStorage::new();
    let api = MockApi::default();
    let mut store = Store { storage: &mut storage, api: &api };
    setup(&mut store);
    assert_eq!(
        remove_admin_checked(&mut store, &info("stranger"), "admin".to_string(), Err(refused())),
        Err(ContractError::Unauthorized {})
    );
    assert_eq!(
        remove_admin_checked(&mut store, &info("admin"), "creator".to_string(), Err(refused())),
        Err(ContractError::Std(refused()))
    );
    assert!(admin(&store, "creator"));
    let response = remove_admin_checked(
        &mut store,
        &info("admin"),
        "creator".to_string(),
        Ok("creator".to_string()),
    )
    .unwrap();
    assert_eq!(
        attributes(response),
        vec![pair("method", "remove_admin"), pair("admin", "creator")]
    );
    assert!(!admin(&store, "creator"));
    assert!(admin(&store, "admin"));
    // one admin left: the host's refusal comes before the count
    assert_eq!(
        remove_admin_checked(&mut store, &info("admin"), "admin".to_string(), Err(refused())),
        Err(ContractError::Std(refused()))
    );
    assert_eq!(
        remove_admin_checked(
            &mut store,
            &info("admin"),
            "admin".to_string(),
            Ok("admin".to_string())
        ),
        Err(ContractError::CustomError { message: "Cannot remove the last admin".to_string() })
    );
    assert!(admin(&store, "admin"));
}

#[test]
fn a_refused_address_leaves_the_registry_as_it_was() {
    let mut storage = MockStorage::new();
    let api = MockApi::default();
    let mut store = Store { storage: &mut storage, api: &api };
    setup(&mut store);
    assert!(matches!(
        execute_remove_admin(&mut store, &info("admin"), "X".to_string()),
        Err(ContractError::Std(_))
    ));
    assert!(matches!(
        execute_add_admin(&mut store, &info("admin"), "X".to_string()),
        Err(ContractError::Std(_))
    ));
    assert!(admin(&store, "admin"));
    assert!(admin(&store, "creator"));
    execute_remove_admin(&mut store, &info("admin"), "creator".to_string()).unwrap();
    assert!(!admin(&store, "creator"));
}
