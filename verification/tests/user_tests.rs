use social_api::user::{AcceptFriendRequest, Timestamp, User, UserFetchQuery};

fn row(creation: &str) -> UserFetchQuery {
    (
        "i".repeat(30),
        "mail@example.com".to_string(),
        "p".repeat(64),
        "t".repeat(128),
        creation.to_string(),
        "alice".to_string(),
        7,
        1,
        false,
        true,
        120,
        3,
    )
}

#[test]
fn accept_friend_request_from_number() {
    assert_eq!(AcceptFriendRequest::from(0), AcceptFriendRequest::No);
    assert_eq!(AcceptFriendRequest::from(1), AcceptFriendRequest::OnlyFromFriendOfFriends);
    assert_eq!(AcceptFriendRequest::from(2), AcceptFriendRequest::Yes);
    assert_eq!(AcceptFriendRequest::from(3), AcceptFriendRequest::Unknown);
    assert_eq!(AcceptFriendRequest::from(-1), AcceptFriendRequest::Unknown);
}

#[test]
fn new_user_is_blank_and_disabled() {
    let u = User::new();
    assert_eq!(u.id, "");
    assert_eq!(u.name, "");
    assert_eq!(u.token, "");
    assert_eq!(u.permissions, num::BigInt::from(0));
    assert!(!u.system);
    assert!(u.disabled);
    assert_eq!(u.accept_friend_request, AcceptFriendRequest::No);
    assert_eq!((u.xp, u.lvl), (0, 0));
    assert!(!u.valid);
    assert!(u.creation.secs > 1_600_000_000);
}

#[test]
fn blank_user_fails_field_check() {
    assert_eq!(User::new().valid_user().err(), Some("Invalid fields in User".to_string()));
}

#[test]
fn any_named_field_passes_field_check() {
    assert!(User::new().set_name("bob".to_string()).valid_user().is_ok());
    assert!(User::new().set_token("t".to_string()).valid_user().is_ok());
    assert!(User::new().set_email("e".to_string()).valid_user().is_ok());
    assert!(User::new().set_password("x".repeat(32)).valid_user().is_ok());
    assert!(User::new().set_password("x".repeat(31)).valid_user().is_err());
    assert!(User::new().set_id("x".repeat(30)).valid_user().is_ok());
    assert!(User::new().set_id("x".repeat(29)).valid_user().is_err());
}

#[test]
fn setters_replace_one_field() {
    let u = User::new()
        .set_name("n".to_string())
        .set_id("i".to_string())
        .set_token("tok".to_string())
        .set_permissions(num::BigInt::from(5))
        .set_system(true)
        .set_disabled(false)
        .set_creation(Timestamp { secs: 10, nanos: 20 })
        .set_friend_request(AcceptFriendRequest::Yes)
        .set_xp(4)
        .set_lvl(2);
    assert_eq!(u.name, "n");
    assert_eq!(u.id, "i");
    assert_eq!(u.get_token(), "tok");
    assert_eq!(u.permissions, num::BigInt::from(5));
    assert!(u.system);
    assert!(!u.disabled);
    assert_eq!(u.creation, Timestamp { secs: 10, nanos: 20 });
    assert_eq!(u.accept_friend_request, AcceptFriendRequest::Yes);
    assert_eq!((u.xp, u.lvl), (4, 2));
}

#[test]
fn row_becomes_valid_user() {
    let u = User::from_row(row("2023-01-02 03:04:05"));
    assert_eq!(u.id, "i".repeat(30));
    assert_eq!(u.name, "alice");
    assert_eq!(u.token, "t".repeat(128));
    assert_eq!(u.permissions, num::BigInt::from(7));
    assert_eq!(u.accept_friend_request, AcceptFriendRequest::OnlyFromFriendOfFriends);
    assert!(!u.system);
    assert!(u.disabled);
    assert_eq!((u.xp, u.lvl), (120, 3));
    assert!(u.valid);
    assert_eq!(u.creation, Timestamp { secs: 1_672_628_645, nanos: 0 });
}

#[test]
fn unreadable_creation_date_falls_back_to_epoch() {
    let u = User::from_row(row("yesterday"));
    assert_eq!(u.creation, Timestamp { secs: 0, nanos: 0 });
}

#[test]
fn id_query_requires_thirty_bytes() {
    assert_eq!(
        User::id_query(&"short".to_string()),
        Err("The ID can only be a 30 long string".to_string())
    );
    let id = "a".repeat(30);
    assert_eq!(
        User::id_query(&id),
        Ok(format!("SELECT * FROM `users` WHERE `id`='{}' LIMIT 1;", id))
    );
}

#[test]
fn token_query_requires_128_bytes() {
    assert_eq!(
        User::token_query(&"a".repeat(127)),
        Err("The token can only be a 128 long string".to_string())
    );
    let token = "b".repeat(128);
    assert_eq!(
        User::token_query(&token),
        Ok(format!("SELECT * FROM `users` WHERE `token`='{}' LIMIT 1;", token))
    );
}

#[test]
fn fetch_results_map_to_user_or_error() {
    assert!(User::from_fetch(Ok(Some(row("2023-01-02 03:04:05")))).unwrap().valid);
    assert_eq!(
        User::from_fetch(Ok(None)).err(),
        Some("No user was found with this ID".to_string())
    );
    assert_eq!(User::from_fetch(Err(())).err(), Some("A SQL error has occured".to_string()));
}

#[test]
fn new_at_records_the_given_instant() {
    let now = Timestamp { secs: 1_700_000_000, nanos: 5 };
    let u = User::new_at(now);
    assert_eq!(u.creation, now);
    assert_eq!(u.permissions, num::BigInt::from(0));
    assert!(u.disabled && !u.valid && !u.system);
    assert_eq!(u.get_token(), "");
}
