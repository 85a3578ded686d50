use pallet_template::digest::digests_match;
use pallet_template::pallet::Pallet;
use pallet_template::types::{Birthday, Error, Event};

fn b(s: &str) -> Vec<u8> {
    s.as_bytes().to_vec()
}

fn with_alice() -> Pallet {
    let mut p = Pallet::new();
    assert!(p.create_user(1, b("Alice"), b("123"), 1990, 5, 4).is_ok());
    p
}

#[test]
fn create_verify_user_test() {
    let mut p = Pallet::new();
    let evs = p.create_user(1, b("Alice"), b("123"), 1990, 5, 4).unwrap();
    assert_eq!(
        p.create_user(1, b("Alice"), b("123"), 1990, 5, 4),
        Err(Error::NameAlreadyTaken)
    );
    assert_eq!(
        p.create_user(1, b("Greg"), b("123"), 1800, 5, 4),
        Err(Error::InvalidBirthday)
    );
    assert!(evs.contains(&Event::NameStored { name: b("Alice"), who: 1 }));
    assert!(p.verify_user(&b("Alice"), &b("123")).is_ok());
    assert_eq!(p.verify_user(&b("Alice"), &b("errado")), Err(Error::InvalidCredentials));
}

#[test]
fn create_tweet_test() {
    let mut p = Pallet::new();
    let evs = p.create_user(1, b("Alice"), b("123"), 1990, 5, 4).unwrap();
    let tweet_evs = p.create_tweet(1, b("Alice"), b("123"), b("MemeBigTest"), 0).unwrap();
    assert!(evs.contains(&Event::NameStored { name: b("Alice"), who: 1 }));
    assert!(evs.contains(&Event::BirthdayStored { name: b("Alice"), year: 1990, month: 5, day: 4 }));
    assert_eq!(
        tweet_evs,
        vec![Event::TweetCreated { name: b("Alice"), tweet_id: 0, timestamp: 0 }]
    );
    assert_eq!(
        p.create_tweet(1, b("Alice"), b("wrongpassword"), b("Hello, World!"), 0),
        Err(Error::InvalidCredentials)
    );
}

#[test]
fn update_user_test() {
    let mut p = Pallet::new();
    let evs = p.create_user(1, b("Alice"), b("123"), 1990, 5, 4).unwrap();
    assert!(evs.contains(&Event::NameStored { name: b("Alice"), who: 1 }));
    assert!(p.update_user_name(1, b("Alice"), b("123"), b("AliceNewName")).is_ok());
    assert_eq!(p.verify_user(&b("Alice"), &b("123")), Err(Error::UserNotFound));
    assert!(p.update_password(1, b("AliceNewName"), b("123"), b("New123")).is_ok());
    assert_eq!(
        p.verify_user(&b("AliceNewName"), &b("123")),
        Err(Error::InvalidCredentials)
    );
    assert!(p.verify_user(&b("AliceNewName"), &b("New123")).is_ok());
}

#[test]
fn delete_user_test() {
    let mut p = Pallet::new();
    assert!(p.create_user(1, b("Alice"), b("123"), 1990, 5, 4).is_ok());
    assert!(p.delete_user(1, b("Alice"), b("123")).is_ok());
    assert_eq!(p.verify_user(&b("alice"), &b("password123")), Err(Error::UserNotFound));
}

#[test]
fn delete_tweet_test() {
    let mut p = Pallet::new();
    let evs = p.create_user(1, b("Alice"), b("123"), 1990, 5, 4).unwrap();
    let tweet_evs = p.create_tweet(1, b("Alice"), b("123"), b("MemeBigTest"), 0).unwrap();
    assert!(evs.contains(&Event::NameStored { name: b("Alice"), who: 1 }));
    assert!(evs.contains(&Event::BirthdayStored { name: b("Alice"), year: 1990, month: 5, day: 4 }));
    assert!(tweet_evs.contains(&Event::TweetCreated { name: b("Alice"), tweet_id: 0, timestamp: 0 }));
    assert!(p.delete_tweet(1, b("Alice"), b("123"), 0).is_ok());
    assert_eq!(p.delete_tweet(1, b("Alice"), b("123"), 0), Err(Error::TweetNotFound));
}

#[test]
fn scenario_create_twice() {
    let mut p = Pallet::new();
    let evs = p.create_user(1, b("Alice"), b("123"), 1990, 5, 4).unwrap();
    assert_eq!(
        evs,
        vec![
            Event::NameStored { name: b("Alice"), who: 1 },
            Event::BirthdayStored { name: b("Alice"), year: 1990, month: 5, day: 4 },
            Event::PasswordHashed { name: b("Alice") },
        ]
    );
    assert_eq!(
        p.create_user(1, b("Alice"), b("123"), 1990, 5, 4),
        Err(Error::NameAlreadyTaken)
    );
}

#[test]
fn scenario_birthday_too_early_creates_nothing() {
    let mut p = Pallet::new();
    assert_eq!(
        p.create_user(1, b("Greg"), b("123"), 1800, 5, 4),
        Err(Error::InvalidBirthday)
    );
    assert_eq!(p.account_by_name(&b("Greg")), None);
    assert_eq!(p.name_by_account(1), None);
    assert_eq!(p.get_user_birthday(&b("Greg")), Err(Error::UserNotFound));
    assert_eq!(p.verify_user(&b("Greg"), &b("123")), Err(Error::UserNotFound));
}

#[test]
fn scenario_post_ids_and_listing_with_gaps() {
    let mut p = with_alice();
    let first = p.create_tweet(1, b("Alice"), b("123"), b("hi"), 10).unwrap();
    assert_eq!(first, vec![Event::TweetCreated { name: b("Alice"), tweet_id: 0, timestamp: 10 }]);
    let second = p.create_tweet(1, b("Alice"), b("123"), b("hi"), 11).unwrap();
    assert_eq!(second, vec![Event::TweetCreated { name: b("Alice"), tweet_id: 1, timestamp: 11 }]);
    assert!(p.delete_tweet(1, b("Alice"), b("123"), 0).is_ok());
    let listed = p.get_user_tweets(&b("Alice")).unwrap();
    assert_eq!(listed.len(), 1);
    assert_eq!(listed[0].0, 1);
    assert_eq!(listed[0].1.name, b("Alice"));
    assert_eq!(listed[0].1.content, b("hi"));
    assert_eq!(listed[0].1.timestamp, 11);
}

#[test]
fn scenario_rename_then_verify() {
    let mut p = with_alice();
    let evs = p.update_user_name(1, b("Alice"), b("123"), b("Bob")).unwrap();
    assert_eq!(
        evs,
        vec![
            Event::NameStored { name: b("Bob"), who: 1 },
            Event::PasswordHashed { name: b("Bob") },
        ]
    );
    assert_eq!(p.verify_user(&b("Alice"), &b("123")), Err(Error::UserNotFound));
    assert_eq!(
        p.verify_user(&b("Bob"), &b("123")),
        Ok(vec![Event::LoginSuccessful { name: b("Bob"), who: 1 }])
    );
}

#[test]
fn scenario_delete_then_verify() {
    let mut p = with_alice();
    assert_eq!(p.delete_user(1, b("Alice"), b("123")), Ok(vec![]));
    assert_eq!(p.verify_user(&b("Alice"), &b("123")), Err(Error::UserNotFound));
}

#[test]
fn registry_is_a_bijection_over_calls() {
    let mut p = Pallet::new();
    assert!(p.create_user(1, b("Alice"), b("123"), 1990, 5, 4).is_ok());
    assert!(p.create_user(2, b("Bob"), b("pw"), 1980, 1, 1).is_ok());
    assert_eq!(p.create_user(1, b("Carol"), b("pw"), 1980, 1, 1), Err(Error::InvalidCaller));
    assert!(p.update_user_name(1, b("Alice"), b("123"), b("Ann")).is_ok());
    assert_eq!(p.account_by_name(&b("Ann")), Some(1));
    assert_eq!(p.account_by_name(&b("Bob")), Some(2));
    assert_eq!(p.account_by_name(&b("Alice")), None);
    assert_eq!(p.name_by_account(1), Some(b("Ann")));
    assert_eq!(p.name_by_account(2), Some(b("Bob")));
    assert_eq!(p.name_by_account(3), None);
}

#[test]
fn rename_carries_everything() {
    let mut p = with_alice();
    assert!(p.create_tweet(1, b("Alice"), b("123"), b("a"), 1).is_ok());
    assert!(p.create_tweet(1, b("Alice"), b("123"), b("b"), 2).is_ok());
    assert!(p.delete_tweet(1, b("Alice"), b("123"), 0).is_ok());
    assert!(p.update_user_name(1, b("Alice"), b("123"), b("Bob")).is_ok());
    assert_eq!(p.tweet_count(&b("Bob")), 2);
    assert_eq!(p.tweet_count(&b("Alice")), 0);
    assert_eq!(p.get_user_tweets(&b("Alice")), Err(Error::UserNotFound));
    assert_eq!(p.get_user_birthday(&b("Alice")), Err(Error::UserNotFound));
    assert_eq!(p.get_user_birthday(&b("Bob")), Ok(Birthday { year: 1990, month: 5, day: 4 }));
    let listed = p.get_user_tweets(&b("Bob")).unwrap();
    assert_eq!(listed.len(), 1);
    assert_eq!(listed[0].0, 1);
    assert_eq!(listed[0].1.name, b("Bob"));
    assert_eq!(listed[0].1.content, b("b"));
    assert!(p.verify_user(&b("Bob"), &b("123")).is_ok());
    let third = p.create_tweet(1, b("Bob"), b("123"), b("c"), 3).unwrap();
    assert_eq!(third, vec![Event::TweetCreated { name: b("Bob"), tweet_id: 2, timestamp: 3 }]);
}

#[test]
fn allocator_is_not_decremented_by_delete() {
    let mut p = with_alice();
    assert!(p.create_tweet(1, b("Alice"), b("123"), b("a"), 1).is_ok());
    assert!(p.create_tweet(1, b("Alice"), b("123"), b("b"), 2).is_ok());
    assert_eq!(p.tweet_count(&b("Alice")), 2);
    assert!(p.delete_tweet(1, b("Alice"), b("123"), 1).is_ok());
    assert_eq!(p.tweet_count(&b("Alice")), 2);
    let next = p.create_tweet(1, b("Alice"), b("123"), b("c"), 3).unwrap();
    assert_eq!(next, vec![Event::TweetCreated { name: b("Alice"), tweet_id: 2, timestamp: 3 }]);
    let ids: Vec<u32> = p.get_user_tweets(&b("Alice")).unwrap().iter().map(|t| t.0).collect();
    assert_eq!(ids, vec![0, 2]);
}

#[test]
fn delete_user_removes_everything() {
    let mut p = with_alice();
    assert!(p.create_tweet(1, b("Alice"), b("123"), b("a"), 1).is_ok());
    assert!(p.delete_user(1, b("Alice"), b("123")).is_ok());
    assert_eq!(p.account_by_name(&b("Alice")), None);
    assert_eq!(p.name_by_account(1), None);
    assert_eq!(p.get_user_birthday(&b("Alice")), Err(Error::UserNotFound));
    assert_eq!(p.get_user_tweets(&b("Alice")), Err(Error::UserNotFound));
    assert_eq!(p.tweet_count(&b("Alice")), 0);
    // The account may register again, and the new identity starts from post id 0.
    assert!(p.create_user(1, b("Alice"), b("new"), 2000, 1, 1).is_ok());
    let first = p.create_tweet(1, b("Alice"), b("new"), b("x"), 9).unwrap();
    assert_eq!(first, vec![Event::TweetCreated { name: b("Alice"), tweet_id: 0, timestamp: 9 }]);
    assert_eq!(p.get_user_tweets(&b("Alice")).unwrap().len(), 1);
}

#[test]
fn failed_calls_change_nothing() {
    let mut p = with_alice();
    assert!(p.create_tweet(1, b("Alice"), b("123"), b("a"), 1).is_ok());
    assert!(p.create_user(2, b("Bob"), b("pw"), 1980, 1, 1).is_ok());
    assert_eq!(p.create_tweet(2, b("Alice"), b("123"), b("x"), 2), Err(Error::NotAuthorized));
    assert_eq!(p.update_user_name(1, b("Alice"), b("bad"), b("Zed")), Err(Error::InvalidCredentials));
    assert_eq!(p.update_user_name(1, b("Alice"), b("123"), b("Bob")), Err(Error::NameAlreadyTaken));
    assert_eq!(p.update_password(2, b("Alice"), b("123"), b("x")), Err(Error::NotAuthorized));
    assert_eq!(p.delete_tweet(1, b("Alice"), b("123"), 5), Err(Error::TweetNotFound));
    assert_eq!(p.delete_user(1, b("Nobody"), b("123")), Err(Error::UserNotFound));
    assert_eq!(p.delete_user(2, b("Alice"), b("123")), Err(Error::NotAuthorized));
    assert_eq!(p.account_by_name(&b("Alice")), Some(1));
    assert_eq!(p.account_by_name(&b("Zed")), None);
    assert_eq!(p.tweet_count(&b("Alice")), 1);
    assert_eq!(p.get_user_tweets(&b("Alice")).unwrap().len(), 1);
    assert!(p.verify_user(&b("Alice"), &b("123")).is_ok());
    assert!(p.verify_user(&b("Bob"), &b("pw")).is_ok());
}

#[test]
fn birthday_ranges_are_coarse() {
    let mut p = Pallet::new();
    // 31 February passes: days are not checked against the month's length.
    assert!(p.create_user(1, b("a"), b("p"), 1990, 2, 31).is_ok());
    assert!(p.create_user(2, b("b"), b("p"), 1920, 1, 1).is_ok());
    assert!(p.create_user(3, b("c"), b("p"), 2006, 12, 31).is_ok());
    assert_eq!(p.create_user(4, b("d"), b("p"), 2007, 1, 1), Err(Error::InvalidBirthday));
    assert_eq!(p.create_user(4, b("d"), b("p"), 1919, 1, 1), Err(Error::InvalidBirthday));
    assert_eq!(p.create_user(4, b("d"), b("p"), 1990, 0, 1), Err(Error::InvalidBirthday));
    assert_eq!(p.create_user(4, b("d"), b("p"), 1990, 13, 1), Err(Error::InvalidBirthday));
    assert_eq!(p.create_user(4, b("d"), b("p"), 1990, 1, 0), Err(Error::InvalidBirthday));
    assert_eq!(p.create_user(4, b("d"), b("p"), 1990, 1, 32), Err(Error::InvalidBirthday));
    assert_eq!(p.get_user_birthday(&b("a")), Ok(Birthday { year: 1990, month: 2, day: 31 }));
    assert!(Birthday { year: 1990, month: 2, day: 31 }.is_valid());
    assert!(!Birthday { year: 1990, month: 2, day: 32 }.is_valid());
}

#[test]
fn content_length_limit() {
    let mut p = with_alice();
    let longest = vec![b'x'; 280];
    assert!(p.create_tweet(1, b("Alice"), b("123"), longest, 0).is_ok());
    let too_long = vec![b'x'; 281];
    assert_eq!(p.create_tweet(1, b("Alice"), b("123"), too_long, 0), Err(Error::TweetTooLong));
    assert_eq!(p.tweet_count(&b("Alice")), 1);
}

#[test]
fn unknown_user_errors() {
    let mut p = Pallet::new();
    assert_eq!(p.create_tweet(1, b("x"), b("p"), b("c"), 0), Err(Error::UserNotFound));
    assert_eq!(p.update_user_name(1, b("x"), b("p"), b("y")), Err(Error::UserNotFound));
    assert_eq!(p.update_password(1, b("x"), b("p"), b("q")), Err(Error::UserNotFound));
    assert_eq!(p.delete_tweet(1, b("x"), b("p"), 0), Err(Error::UserNotFound));
    assert_eq!(p.get_user_tweets(&b("x")), Err(Error::UserNotFound));
    assert_eq!(p.tweet_count(&b("x")), 0);
}

#[test]
fn reads_need_no_ownership() {
    let mut p = with_alice();
    assert!(p.create_tweet(1, b("Alice"), b("123"), b("hello"), 5).is_ok());
    // Reads take no caller at all; only the name matters.
    assert_eq!(p.get_user_birthday(&b("Alice")), Ok(Birthday { year: 1990, month: 5, day: 4 }));
    assert_eq!(p.get_user_tweets(&b("Alice")).unwrap().len(), 1);
}

#[test]
fn login_audit_reports_failures_without_erroring() {
    let p = with_alice();
    assert_eq!(
        p.audit_login(&b("Alice"), &b("123")),
        Event::LoginSuccessful { name: b("Alice"), who: 1 }
    );
    assert_eq!(p.audit_login(&b("Alice"), &b("nope")), Event::LoginFailed { name: b("Alice") });
    assert_eq!(p.audit_login(&b("Nobody"), &b("123")), Event::LoginFailed { name: b("Nobody") });
}

#[test]
fn digests_compare_whole_arrays() {
    let a = [7u8; 32];
    let mut c = a;
    assert!(digests_match(&a, &c));
    c[31] = 8;
    assert!(!digests_match(&a, &c));
    c = a;
    c[0] = 0;
    assert!(!digests_match(&a, &c));
}

#[test]
fn passwords_are_hashed_not_compared_raw() {
    let mut p = Pallet::new();
    // A password that differs only in its last byte must be rejected.
    assert!(p.create_user(1, b("Alice"), b("secret-1"), 1990, 5, 4).is_ok());
    assert_eq!(p.verify_user(&b("Alice"), &b("secret-2")), Err(Error::InvalidCredentials));
    assert!(p.update_password(1, b("Alice"), b("secret-1"), b("")).is_ok());
    assert!(p.verify_user(&b("Alice"), &b("")).is_ok());
    assert_eq!(p.verify_user(&b("Alice"), &b("secret-1")), Err(Error::InvalidCredentials));
}
