use cosmwasm_std::testing::{MockApi, MockStorage};
use tipping_profiles::contract::{
    admin_by_checked_address, execute, instantiate, profile_by_checked_wallet, query,
    query_is_admin, query_is_username_available, query_list_profiles,
    query_profile_by_wallet, query_tip_detail, query_tips_received, query_tips_sent,
    query_user_stats,
};
use tipping_profiles::msg::{
    Env, ExecuteMsg, InstantiateMsg, MessageInfo, QueryMsg, QueryResponse, StatsResponse,
};
use tipping_profiles::paging::{amount_of, amount_string, comes_after, sum_amounts, tips_page};
use tipping_profiles::state::{Timestamp, TipRecord};
use tipping_profiles::store::Store;

fn env(nanos: u64) -> Env {
    Env { time: Timestamp::from_nanos(nanos) }
}

fn info(sender: &str) -> MessageInfo {
    MessageInfo { sender: sender.to_string() }
}

fn register(username: &str) -> ExecuteMsg {
    ExecuteMsg::RegisterProfile {
        username: username.to_string(),
        name: username.to_uppercase(),
        bio: None,
        profile_picture: None,
        banner_image: None,
        twitter: None,
        website: None,
    }
}

fn tip(to: &str, amount: &str) -> ExecuteMsg {
    ExecuteMsg::RecordTip { to_username: to.to_string(), amount: amount.to_string(), message: None }
}

/// alice (wallet1), bob (wallet2) and carol (wallet3), registered in that
/// order.
fn populate(store: &mut Store) {
    instantiate(
        store,
        &env(1),
        &info("creator"),
        InstantiateMsg { admin: "admin".to_string() },
    )
    .unwrap();
    execute(store, &env(10), &info("wallet2"), register("bob")).unwrap();
    execute(store, &env(11), &info("wallet3"), register("carol")).unwrap();
    execute(store, &env(12), &info("wallet1"), register("alice")).unwrap();
}

fn amounts(tips: &[TipRecord]) -> Vec<String> {
    tips.iter().map(|t| t.amount.clone()).collect()
}

fn times(tips: &[TipRecord]) -> Vec<u64> {
    tips.iter().map(|t| t.timestamp.nanos()).collect()
}

#[test]
fn one_tip_is_listed_on_both_sides() {
    let mut storage = MockStorage::new();
    let api = MockApi::default();
    let mut store = Store { storage: &mut storage, api: &api };
    populate(&mut store);
    execute(&mut store, &env(100), &info("wallet1"), tip("bob", "5uxion")).unwrap();

    let expected = TipRecord {
        from_username: "alice".to_string(),
        to_username: "bob".to_string(),
        amount: "5uxion".to_string(),
        message: None,
        timestamp: Timestamp::from_nanos(100),
    };
    let sent = query_tips_sent(&store, "alice".to_string(), None, None).unwrap();
    assert_eq!(sent.tips, vec![expected.clone()]);
    let received = query_tips_received(&store, "bob".to_string(), None, None).unwrap();
    assert_eq!(received.tips, vec![expected.clone()]);
    assert_eq!(query_tips_received(&store, "alice".to_string(), None, None).unwrap().tips, vec![]);
    assert_eq!(query_tips_sent(&store, "bob".to_string(), None, None).unwrap().tips, vec![]);

    let stats = query_user_stats(&store, "alice".to_string()).unwrap();
    assert_eq!(
        stats,
        StatsResponse {
            total_tips_sent: 1,
            total_tips_received: 0,
            total_amount_sent: "5uxion".to_string(),
            total_amount_received: "0uxion".to_string(),
        }
    );
    let stats = query_user_stats(&store, "bob".to_string()).unwrap();
    assert_eq!(stats.total_tips_received, 1);
    assert_eq!(stats.total_amount_received, "5uxion");

    let detail = query_tip_detail(
        &store,
        "alice".to_string(),
        "bob".to_string(),
        Timestamp::from_nanos(100),
    )
    .unwrap();
    assert_eq!(detail.tip, Some(expected));
    let none = query_tip_detail(
        &store,
        "alice".to_string(),
        "bob".to_string(),
        Timestamp::from_nanos(101),
    )
    .unwrap();
    assert_eq!(none.tip, None);
}

#[test]
fn tips_come_newest_first() {
    let mut storage = MockStorage::new();
    let api = MockApi::default();
    let mut store = Store { storage: &mut storage, api: &api };
    populate(&mut store);
    execute(&mut store, &env(200), &info("wallet1"), tip("bob", "2uxion")).unwrap();
    execute(&mut store, &env(100), &info("wallet1"), tip("bob", "1uxion")).unwrap();
    execute(&mut store, &env(300), &info("wallet1"), tip("bob", "3uxion")).unwrap();
    execute(&mut store, &env(150), &info("wallet1"), tip("carol", "9uxion")).unwrap();

    // keys: alice:bob:100, alice:bob:200, alice:bob:300, alice:carol:150
    let all = query_tips_sent(&store, "alice".to_string(), None, None).unwrap().tips;
    assert_eq!(amounts(&all), vec!["9uxion", "3uxion", "2uxion", "1uxion"]);

    let two = query_tips_sent(&store, "alice".to_string(), Some(2), None).unwrap().tips;
    assert_eq!(amounts(&two), vec!["9uxion", "3uxion"]);

    let none = query_tips_sent(&store, "alice".to_string(), Some(0), None).unwrap().tips;
    assert_eq!(none, vec![]);

    let received = query_tips_received(&store, "bob".to_string(), Some(10), None).unwrap().tips;
    assert_eq!(times(&received), vec![300, 200, 100]);
}

#[test]
fn a_cursor_keeps_the_greater_keys() {
    let mut storage = MockStorage::new();
    let api = MockApi::default();
    let mut store = Store { storage: &mut storage, api: &api };
    populate(&mut store);
    execute(&mut store, &env(100), &info("wallet1"), tip("bob", "1uxion")).unwrap();
    execute(&mut store, &env(200), &info("wallet1"), tip("bob", "2uxion")).unwrap();
    execute(&mut store, &env(300), &info("wallet1"), tip("bob", "3uxion")).unwrap();

    let after = query_tips_sent(
        &store,
        "alice".to_string(),
        None,
        Some("alice:bob:100".to_string()),
    )
    .unwrap()
    .tips;
    assert_eq!(times(&after), vec![300, 200]);

    // a page of one key: the page after it is empty
    let first = query_tips_sent(&store, "alice".to_string(), Some(1), None).unwrap().tips;
    assert_eq!(times(&first), vec![300]);
    let next = query_tips_sent(
        &store,
        "alice".to_string(),
        Some(1),
        Some("alice:bob:300".to_string()),
    )
    .unwrap()
    .tips;
    assert_eq!(next, vec![]);

    // a page of two keys: the page after its last key starts over
    let first = query_tips_sent(&store, "alice".to_string(), Some(2), None).unwrap().tips;
    assert_eq!(times(&first), vec![300, 200]);
    let next = query_tips_sent(
        &store,
        "alice".to_string(),
        Some(2),
        Some("alice:bob:200".to_string()),
    )
    .unwrap()
    .tips;
    assert_eq!(times(&next), vec![300]);
}

#[test]
fn keys_are_ordered_as_text() {
    let mut storage = MockStorage::new();
    let api = MockApi::default();
    let mut store = Store { storage: &mut storage, api: &api };
    populate(&mut store);
    execute(&mut store, &env(9), &info("wallet1"), tip("bob", "1uxion")).unwrap();
    execute(&mut store, &env(10), &info("wallet1"), tip("bob", "2uxion")).unwrap();
    // "alice:bob:9" is greater than "alice:bob:10" as text
    let all = query_tips_sent(&store, "alice".to_string(), None, None).unwrap().tips;
    assert_eq!(times(&all), vec![9, 10]);
}

#[test]
fn tips_of_unknown_user_are_empty() {
    let mut storage = MockStorage::new();
    let api = MockApi::default();
    let mut store = Store { storage: &mut storage, api: &api };
    populate(&mut store);
    assert_eq!(query_tips_sent(&store, "nobody".to_string(), None, None).unwrap().tips, vec![]);
    assert_eq!(
        query_tips_received(&store, "nobody".to_string(), None, None).unwrap().tips,
        vec![]
    );
    assert_eq!(
        query_user_stats(&store, "nobody".to_string()).unwrap(),
        StatsResponse {
            total_tips_sent: 0,
            total_tips_received: 0,
            total_amount_sent: "0uxion".to_string(),
            total_amount_received: "0uxion".to_string(),
        }
    );
}

#[test]
fn totals_skip_what_does_not_parse() {
    let mut storage = MockStorage::new();
    let api = MockApi::default();
    let mut store = Store { storage: &mut storage, api: &api };
    populate(&mut store);
    execute(&mut store, &env(100), &info("wallet1"), tip("bob", "5uxion")).unwrap();
    execute(&mut store, &env(101), &info("wallet1"), tip("bob", "7uatom")).unwrap();
    execute(&mut store, &env(102), &info("wallet1"), tip("bob", "lots")).unwrap();
    execute(&mut store, &env(103), &info("wallet1"), tip("carol", "+12uxion")).unwrap();
    execute(&mut store, &env(104), &info("wallet1"), tip("carol", "-1uxion")).unwrap();
    execute(&mut store, &env(105), &info("wallet1"), tip("carol", "uxion")).unwrap();
    execute(&mut store, &env(106), &info("wallet1"), tip("carol", "003uxion")).unwrap();
    let stats = query_user_stats(&store, "alice".to_string()).unwrap();
    assert_eq!(stats.total_tips_sent, 7);
    assert_eq!(stats.total_amount_sent, "20uxion");
    assert_eq!(stats.total_amount_received, "0uxion");
    let stats = query_user_stats(&store, "carol".to_string()).unwrap();
    assert_eq!(stats.total_tips_received, 4);
    assert_eq!(stats.total_amount_received, "15uxion");
}

#[test]
fn totals_do_not_overflow() {
    let mut storage = MockStorage::new();
    let api = MockApi::default();
    let mut store = Store { storage: &mut storage, api: &api };
    populate(&mut store);
    let max = "340282366920938463463374607431768211455uxion";
    execute(&mut store, &env(100), &info("wallet1"), tip("bob", max)).unwrap();
    execute(&mut store, &env(101), &info("wallet1"), tip("bob", max)).unwrap();
    execute(&mut store, &env(102), &info("wallet1"), tip("bob", "2uxion")).unwrap();
    // one more than 128 bits hold: counts for nothing
    execute(
        &mut store,
        &env(103),
        &info("wallet1"),
        tip("bob", "340282366920938463463374607431768211456uxion"),
    )
    .unwrap();
    let stats = query_user_stats(&store, "alice".to_string()).unwrap();
    assert_eq!(stats.total_amount_sent, "680564733841876926926749214863536422912uxion");
    assert_eq!(amount_string((1, 0)), "340282366920938463463374607431768211456uxion");
    assert_eq!(amount_string((0, 0)), "0uxion");
}

#[test]
fn amount_values() {
    assert_eq!(amount_of("5uxion"), 5);
    assert_eq!(amount_of("0uxion"), 0);
    assert_eq!(amount_of("+5uxion"), 5);
    assert_eq!(amount_of("0012uxion"), 12);
    assert_eq!(amount_of("5"), 0);
    assert_eq!(amount_of("uxion"), 0);
    assert_eq!(amount_of("+uxion"), 0);
    assert_eq!(amount_of("5 uxion"), 0);
    assert_eq!(amount_of("5uxio"), 0);
    assert_eq!(amount_of("5UXION"), 0);
    assert_eq!(amount_of("5.0uxion"), 0);
    assert_eq!(amount_of("５uxion"), 0);
    assert_eq!(amount_of(""), 0);
    assert_eq!(amount_of("340282366920938463463374607431768211455uxion"), u128::MAX);
    assert_eq!(amount_of("340282366920938463463374607431768211456uxion"), 0);
}

#[test]
fn cursor_comparison() {
    assert!(comes_after("b", &Some("a".to_string())));
    assert!(!comes_after("a", &Some("a".to_string())));
    assert!(!comes_after("a", &Some("b".to_string())));
    assert!(comes_after("ab", &Some("a".to_string())));
    assert!(comes_after("", &None));
    assert!(!comes_after("", &Some("".to_string())));
    assert!(comes_after("é", &Some("z".to_string())));
}

#[test]
fn pages_skip_keys_without_a_tip() {
    let mut storage = MockStorage::new();
    let api = MockApi::default();
    let mut store = Store { storage: &mut storage, api: &api };
    populate(&mut store);
    execute(&mut store, &env(100), &info("wallet1"), tip("bob", "5uxion")).unwrap();
    let refs = vec![
        ("bob".to_string(), "alice:bob:100".to_string()),
        ("bob".to_string(), "alice:bob:999".to_string()),
        ("bob".to_string(), "alice:bob:100".to_string()),
    ];
    let page = tips_page(&store, &refs, 10, &None);
    assert_eq!(times(&page), vec![100, 100]);
    // the limit counts keys, not tips
    let page = tips_page(&store, &refs, 1, &None);
    assert_eq!(page, vec![]);
    assert_eq!(sum_amounts(&store, &refs), (0, 10));
}

#[test]
fn same_nanosecond_overwrites() {
    let mut storage = MockStorage::new();
    let api = MockApi::default();
    let mut store = Store { storage: &mut storage, api: &api };
    populate(&mut store);
    execute(&mut store, &env(100), &info("wallet1"), tip("bob", "5uxion")).unwrap();
    execute(&mut store, &env(100), &info("wallet1"), tip("bob", "7uxion")).unwrap();
    let sent = query_tips_sent(&store, "alice".to_string(), None, None).unwrap().tips;
    assert_eq!(amounts(&sent), vec!["7uxion", "7uxion"]);
    let stats = query_user_stats(&store, "alice".to_string()).unwrap();
    assert_eq!(stats.total_tips_sent, 2);
    assert_eq!(stats.total_amount_sent, "14uxion");
}

#[test]
fn profiles_are_listed_in_order() {
    let mut storage = MockStorage::new();
    let api = MockApi::default();
    let mut store = Store { storage: &mut storage, api: &api };
    populate(&mut store);
    let names = |limit: Option<u32>, start_after: Option<&str>| -> Vec<String> {
        query_list_profiles(&store, limit, start_after.map(|s| s.to_string()))
            .unwrap()
            .profiles
            .into_iter()
            .map(|p| p.username)
            .collect()
    };
    assert_eq!(names(None, None), vec!["alice", "bob", "carol"]);
    assert_eq!(names(Some(2), None), vec!["alice", "bob"]);
    assert_eq!(names(Some(2), Some("bob")), vec!["carol"]);
    assert_eq!(names(Some(2), Some("alice")), vec!["bob", "carol"]);
    assert_eq!(names(None, Some("b")), vec!["bob", "carol"]);
    assert_eq!(names(None, Some("carol")), Vec::<String>::new());
    assert_eq!(names(Some(0), None), Vec::<String>::new());
}

#[test]
fn default_page_is_thirty() {
    let mut storage = MockStorage::new();
    let api = MockApi::default();
    let mut store = Store { storage: &mut storage, api: &api };
    for i in 0..35 {
        let username = format!("user{:02}", i);
        let wallet = format!("wallet{:02}", i);
        execute(&mut store, &env(10), &info(&wallet), register(&username)).unwrap();
    }
    let page = query_list_profiles(&store, None, None).unwrap().profiles;
    assert_eq!(page.len(), 30);
    assert_eq!(page[0].username, "user00");
    assert_eq!(page[29].username, "user29");
    let rest = query_list_profiles(&store, None, Some("user29".to_string())).unwrap().profiles;
    assert_eq!(rest.len(), 5);
    assert_eq!(rest[4].username, "user34");
}

#[test]
fn profile_by_wallet() {
    let mut storage = MockStorage::new();
    let api = MockApi::default();
    let mut store = Store { storage: &mut storage, api: &api };
    populate(&mut store);
    let found = query_profile_by_wallet(&store, "wallet2".to_string()).unwrap();
    assert_eq!(found.profile.unwrap().username, "bob");
    let none = query_profile_by_wallet(&store, "wallet9".to_string()).unwrap();
    assert_eq!(none.profile, None);
    assert!(query_profile_by_wallet(&store, "W".to_string()).is_err());
}

#[test]
fn availability() {
    let mut storage = MockStorage::new();
    let api = MockApi::default();
    let mut store = Store { storage: &mut storage, api: &api };
    populate(&mut store);
    let available = |username: &str| -> bool {
        query_is_username_available(&store, username.to_string()).unwrap().is_available
    };
    assert!(!available("alice"));
    assert!(!available("al"));
    assert!(!available("alice!"));
    assert!(!available(""));
    assert!(available("alice_99"));
    assert!(available("dave"));
    // asking changes nothing
    assert!(available("dave"));
    match query(&store, &env(1), QueryMsg::IsUsernameAvailable { username: "bob".to_string() })
        .unwrap()
    {
        QueryResponse::UsernameAvailable(r) => assert!(!r.is_available),
        _ => unreachable!(),
    }
}

#[test]
fn query_dispatches() {
    let mut storage = MockStorage::new();
    let api = MockApi::default();
    let mut store = Store { storage: &mut storage, api: &api };
    populate(&mut store);
    execute(&mut store, &env(100), &info("wallet1"), tip("bob", "5uxion")).unwrap();
    let ask = |msg: QueryMsg| query(&store, &env(1), msg).unwrap();
    assert!(matches!(
        ask(QueryMsg::GetProfileByWallet { wallet: "wallet1".to_string() }),
        QueryResponse::Profile(r) if r.profile.as_ref().unwrap().username == "alice"
    ));
    assert!(matches!(
        ask(QueryMsg::ListProfiles { limit: Some(1), start_after: None }),
        QueryResponse::Profiles(r) if r.profiles.len() == 1
    ));
    assert!(matches!(
        ask(QueryMsg::GetTipsSent { username: "alice".to_string(), limit: None, start_after: None }),
        QueryResponse::Tips(r) if r.tips.len() == 1
    ));
    assert!(matches!(
        ask(QueryMsg::GetTipsReceived {
            username: "alice".to_string(),
            limit: None,
            start_after: None
        }),
        QueryResponse::Tips(r) if r.tips.is_empty()
    ));
    assert!(matches!(
        ask(QueryMsg::GetTipDetail {
            from_username: "alice".to_string(),
            to_username: "bob".to_string(),
            timestamp: Timestamp::from_nanos(100)
        }),
        QueryResponse::TipDetail(r) if r.tip.is_some()
    ));
    assert!(matches!(
        ask(QueryMsg::GetUserStats { username: "bob".to_string() }),
        QueryResponse::Stats(r) if r.total_amount_received == "5uxion"
    ));
    assert!(matches!(
        ask(QueryMsg::IsAdmin { address: "admin".to_string() }),
        QueryResponse::Admin(r) if r.is_admin
    ));
}

#[test]
fn the_host_has_its_say_on_a_wallet() {
    let mut storage = MockStorage::new();
    let api = MockApi::default();
    let mut store = Store { storage: &mut storage, api: &api };
    populate(&mut store);
    assert_eq!(
        profile_by_checked_wallet(&store, Err(cosmwasm_std::StdError::generic_err("no address"))),
        Err(cosmwasm_std::StdError::generic_err("no address"))
    );
    let found = profile_by_checked_wallet(&store, Ok("wallet3".to_string())).unwrap();
    assert_eq!(found.profile.unwrap().username, "carol");
    let none = profile_by_checked_wallet(&store, Ok("wallet9".to_string())).unwrap();
    assert_eq!(none.profile, None);
    // what the host would refuse is looked up all the same, once it is handed in
    let none = profile_by_checked_wallet(&store, Ok("W".to_string())).unwrap();
    assert_eq!(none.profile, None);
    assert!(query_profile_by_wallet(&store, "W".to_string()).is_err());
    assert_eq!(
        query_profile_by_wallet(&store, "wallet3".to_string()),
        profile_by_checked_wallet(&store, Ok("wallet3".to_string()))
    );
}

#[test]
fn the_host_has_its_say_on_an_admin() {
    let mut storage = MockStorage::new();
    let api = MockApi::default();
    let mut store = Store { storage: &mut storage, api: &api };
    populate(&mut store);
    assert_eq!(
        admin_by_checked_address(&store, Err(cosmwasm_std::StdError::generic_err("no address"))),
        Err(cosmwasm_std::StdError::generic_err("no address"))
    );
    assert!(admin_by_checked_address(&store, Ok("admin".to_string())).unwrap().is_admin);
    assert!(admin_by_checked_address(&store, Ok("creator".to_string())).unwrap().is_admin);
    assert!(!admin_by_checked_address(&store, Ok("wallet1".to_string())).unwrap().is_admin);
    assert!(!admin_by_checked_address(&store, Ok("W".to_string())).unwrap().is_admin);
    assert!(query_is_admin(&store, "W".to_string()).is_err());
    assert!(query_is_admin(&store, "admin".to_string()).unwrap().is_admin);
    assert!(!query_is_admin(&store, "wallet1".to_string()).unwrap().is_admin);
}
