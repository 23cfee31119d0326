use tipping_profiles::helpers::{generate_tip_key, parse_tip_key};
use tipping_profiles::state::{Timestamp, TipRecord, UserProfile};
use tipping_profiles::text::{
    digit_of, number_to_text, parse_number, str_lt, to_chars, wide_to_text,
};
use tipping_profiles::username::validate_username;
use tipping_profiles::ContractError;

fn chars(s: &str) -> Vec<char> {
    s.chars().collect()
}

#[test]
fn tip_keys() {
    assert_eq!(generate_tip_key("alice", "bob", 0), "alice:bob:0");
    assert_eq!(generate_tip_key("alice", "bob", 1700000000123456789), "alice:bob:1700000000123456789");
    assert_eq!(generate_tip_key("", "", u64::MAX), "::18446744073709551615");
}

#[test]
fn tip_keys_parse_back() {
    assert_eq!(
        parse_tip_key("alice:bob:1700000000123456789"),
        Some(("alice".to_string(), "bob".to_string(), 1700000000123456789))
    );
    assert_eq!(parse_tip_key("::0"), Some(("".to_string(), "".to_string(), 0)));
    assert_eq!(parse_tip_key("a:b:+7"), Some(("a".to_string(), "b".to_string(), 7)));
    assert_eq!(parse_tip_key("a:b:007"), Some(("a".to_string(), "b".to_string(), 7)));
    assert_eq!(
        parse_tip_key("é:ü:18446744073709551615"),
        Some(("é".to_string(), "ü".to_string(), u64::MAX))
    );
    assert_eq!(
        parse_tip_key(&generate_tip_key("alice_99", "bob-1", 42)),
        Some(("alice_99".to_string(), "bob-1".to_string(), 42))
    );
}

#[test]
fn malformed_tip_keys() {
    assert_eq!(parse_tip_key(""), None);
    assert_eq!(parse_tip_key("alice"), None);
    assert_eq!(parse_tip_key("alice:bob"), None);
    assert_eq!(parse_tip_key("alice:bob:"), None);
    assert_eq!(parse_tip_key("alice:bob:x"), None);
    assert_eq!(parse_tip_key("alice:bob:-1"), None);
    assert_eq!(parse_tip_key("alice:bob:1:2"), None);
    assert_eq!(parse_tip_key("alice:bob:1:"), None);
    assert_eq!(parse_tip_key("alice:bob:18446744073709551616"), None);
    assert_eq!(parse_tip_key("alice:bob: 1"), None);
    assert_eq!(parse_tip_key("alice:bob:+"), None);
}

#[test]
fn numbers_as_text() {
    assert_eq!(number_to_text(0), "0");
    assert_eq!(number_to_text(7), "7");
    assert_eq!(number_to_text(10), "10");
    assert_eq!(number_to_text(1234567890), "1234567890");
    assert_eq!(number_to_text(u128::MAX), "340282366920938463463374607431768211455");
    assert_eq!(wide_to_text(0, 0), "0");
    assert_eq!(wide_to_text(1, 0), "340282366920938463463374607431768211456");
    assert_eq!(wide_to_text(1, 1), "340282366920938463463374607431768211457");
    assert_eq!(
        wide_to_text(u64::MAX, u128::MAX),
        "6277101735386680763835789423207666416102355444464034512895"
    );
}

#[test]
fn text_as_numbers() {
    assert_eq!(parse_number(&chars("0"), 10), Some(0));
    assert_eq!(parse_number(&chars("10"), 10), Some(10));
    assert_eq!(parse_number(&chars("11"), 10), None);
    assert_eq!(parse_number(&chars("+10"), 10), Some(10));
    assert_eq!(parse_number(&chars("0000000000000000000000000000000000000000000010"), 10), Some(10));
    assert_eq!(parse_number(&chars(""), 10), None);
    assert_eq!(parse_number(&chars("+"), 10), None);
    assert_eq!(parse_number(&chars("++1"), 10), None);
    assert_eq!(parse_number(&chars("-1"), 10), None);
    assert_eq!(parse_number(&chars("1_0"), 100), None);
    assert_eq!(parse_number(&chars("1a"), 100), None);
    assert_eq!(parse_number(&chars("٣"), 100), None);
    assert_eq!(parse_number(&chars("5"), 0), None);
    assert_eq!(parse_number(&chars("0"), 0), Some(0));
    assert_eq!(
        parse_number(&chars("340282366920938463463374607431768211455"), u128::MAX),
        Some(u128::MAX)
    );
    assert_eq!(parse_number(&chars("340282366920938463463374607431768211456"), u128::MAX), None);
    assert_eq!(parse_number(&chars("999999999999999999999999999999999999999999"), u128::MAX), None);
    assert_eq!(digit_of('7'), Some(7));
    assert_eq!(digit_of('0'), Some(0));
    assert_eq!(digit_of('a'), None);
}

#[test]
fn text_order() {
    assert!(str_lt("a", "b"));
    assert!(!str_lt("b", "a"));
    assert!(!str_lt("a", "a"));
    assert!(str_lt("", "a"));
    assert!(!str_lt("", ""));
    assert!(!str_lt("a", ""));
    assert!(str_lt("a", "ab"));
    assert!(str_lt("Z", "a"));
    assert!(str_lt("alice:bob:10", "alice:bob:9"));
    assert!(str_lt("z", "é"));
    assert!(str_lt("é", "€"));
    let samples = ["", "a", "ab", "b", "é", "€", "𝄞", "~", "A", "alice:bob:10"];
    for a in samples {
        for b in samples {
            assert_eq!(str_lt(a, b), a < b, "{:?} < {:?}", a, b);
        }
    }
    assert_eq!(to_chars("aé€"), vec!['a', 'é', '€']);
    assert_eq!(to_chars(""), Vec::<char>::new());
}

#[test]
fn usernames() {
    assert_eq!(validate_username("ab"), Err(ContractError::UsernameTooShortOrLong {}));
    assert_eq!(validate_username(""), Err(ContractError::UsernameTooShortOrLong {}));
    assert_eq!(
        validate_username("alice!"),
        Err(ContractError::InvalidUsername { username: "alice!".to_string() })
    );
    assert_eq!(validate_username("alice_99"), Ok(()));
    assert_eq!(validate_username("abc"), Ok(()));
    assert_eq!(validate_username("A-b_9"), Ok(()));
    assert_eq!(validate_username("---"), Ok(()));
    let thirty = "a".repeat(30);
    assert_eq!(validate_username(&thirty), Ok(()));
    let thirty_one = "a".repeat(31);
    assert_eq!(validate_username(&thirty_one), Err(ContractError::UsernameTooShortOrLong {}));
    assert_eq!(
        validate_username("al ice"),
        Err(ContractError::InvalidUsername { username: "al ice".to_string() })
    );
    assert_eq!(
        validate_username("a:b"),
        Err(ContractError::InvalidUsername { username: "a:b".to_string() })
    );
    assert_eq!(
        validate_username("alice\n"),
        Err(ContractError::InvalidUsername { username: "alice\n".to_string() })
    );
    // length is counted in bytes, before the characters are looked at
    assert_eq!(
        validate_username("é!"),
        Err(ContractError::InvalidUsername { username: "é!".to_string() })
    );
    assert_eq!(validate_username("é"), Err(ContractError::UsernameTooShortOrLong {}));
    assert_eq!(
        validate_username("ééé"),
        Err(ContractError::InvalidUsername { username: "ééé".to_string() })
    );
}

#[test]
fn timestamps() {
    assert_eq!(Timestamp::from_nanos(0).to_text(), "0.000000000");
    assert_eq!(Timestamp::from_nanos(1).to_text(), "0.000000001");
    assert_eq!(Timestamp::from_nanos(1_000_000_000).to_text(), "1.000000000");
    assert_eq!(Timestamp::from_nanos(1_571_797_419_879_305_533).to_text(), "1571797419.879305533");
    assert_eq!(Timestamp::from_nanos(u64::MAX).to_text(), "18446744073.709551615");
    assert_eq!(Timestamp::from_nanos(17).nanos(), 17);
}

#[test]
fn rows() {
    let profile = UserProfile {
        username: "alice".to_string(),
        name: "Alice".to_string(),
        bio: Some("bio".to_string()),
        profile_picture: None,
        banner_image: Some("banner".to_string()),
        twitter: None,
        website: Some("site".to_string()),
        wallet_address: "wallet1".to_string(),
        created_at: Timestamp::from_nanos(1),
        updated_at: Timestamp::from_nanos(2),
    };
    assert_eq!(UserProfile::from_row(&profile.to_row()), profile);
    let tip = TipRecord {
        from_username: "alice".to_string(),
        to_username: "bob".to_string(),
        amount: "5uxion".to_string(),
        message: Some("hi".to_string()),
        timestamp: Timestamp::from_nanos(3),
    };
    assert_eq!(TipRecord::from_row(&tip.to_row()), tip);
}
