use social_api::query::{
    create_user_creation_query, database_url, lookup_query, LookupOutcome, Signup,
};

fn outcome_text(o: &LookupOutcome) -> String {
    match o {
        LookupOutcome::Retry { new_token, new_id } => format!("retry {} {}", new_token, new_id),
        LookupOutcome::Insert(q) => format!("insert {}", q),
        LookupOutcome::Finished(r) => format!("finished {:?}", r),
    }
}

#[test]
fn creation_query_quotes_texts() {
    let q = create_user_creation_query(
        "bob".to_string(),
        "b@x.org".to_string(),
        "h\"x".to_string(),
        "id1".to_string(),
        "tok".to_string(),
    );
    assert_eq!(
        q,
        "INSERT INTO users (id, email, password, token, creation, name, permissions, accept_friends_request, system, disabled, xp, lvl) VALUES (\"id1\", \"b@x.org\", \"h\\\"x\", \"tok\", current_timestamp(), \"bob\", \"0\", 0, false, false, 0, 0);"
    );
}

#[test]
fn lookup_query_quotes_texts() {
    assert_eq!(
        lookup_query(&"t".to_string(), &"i".to_string(), &"n".to_string()),
        "SELECT `token`, `id`, `name` FROM `users` WHERE token=\"t\" OR id=\"i\" OR name=\"n\""
    );
}

#[test]
fn database_url_joins_parts() {
    assert_eq!(database_url("u", "p", "db.local", "app"), "mysql://u:p@db.local/app");
}

#[test]
fn signup_refuses_long_name_then_long_email() {
    let r = Signup::start("n".repeat(33), "e".repeat(351), "pw".to_string());
    assert_eq!(r.err(), Some("Name cannot contain more than 32 caracters".to_string()));
    let r = Signup::start("n".repeat(32), "e".repeat(351), "pw".to_string());
    assert_eq!(r.err(), Some("Invalid email was provided".to_string()));
    assert!(Signup::start("n".repeat(32), "e".repeat(350), "pw".to_string()).is_ok());
}

#[test]
fn settle_token_keeps_full_tokens_and_replaces_short_ones() {
    let mut s = Signup::start("bob".to_string(), "b@x.org".to_string(), "pw".to_string()).unwrap();
    let full = "T".repeat(128);
    s.settle_token(full.clone());
    assert_eq!(s.token(), &full);
    s.settle_token("short".to_string());
    assert_eq!(s.token().len(), 128);
    assert!(s.token().chars().all(|c| c.is_ascii_hexdigit()));
}

#[test]
fn signup_inserts_hashed_password_when_nothing_collides() {
    let mut s = Signup::start("bob".to_string(), "b@x.org".to_string(), "abc".to_string()).unwrap();
    s.settle_token("T".repeat(128));
    let q = s.lookup_query();
    assert!(q.starts_with("SELECT `token`, `id`, `name` FROM `users` WHERE token=\"TTTT"));
    assert!(q.ends_with(" OR name=\"bob\""));
    let o = s.after_lookup(Ok(None));
    let text = outcome_text(&o);
    assert!(text.starts_with("insert INSERT INTO users"));
    assert!(text.contains("\"ba7816bf8f01cfea414140de5dae2223b00361a396177a9cb410ff61f20015ad\""));
    assert!(!text.contains("\"abc\""));
    assert_eq!(Signup::after_insert(true), Ok(()));
}

#[test]
fn signup_retries_on_token_or_id_collision_and_stops_on_name() {
    let mut s = Signup::start("bob".to_string(), "b@x.org".to_string(), "abc".to_string()).unwrap();
    s.settle_token("T".repeat(128));
    let o = s.after_lookup(Ok(Some(("T".repeat(128), "other".to_string(), "eve".to_string()))));
    assert_eq!(outcome_text(&o), "retry true false");
    s.replace_token("U".repeat(128));
    assert_eq!(s.token(), &"U".repeat(128));
    let o = s.after_lookup(Ok(Some(("x".to_string(), "y".to_string(), "eve".to_string()))));
    assert_eq!(outcome_text(&o), "retry false false");
    let o = s.after_lookup(Ok(Some(("x".to_string(), "y".to_string(), "bob".to_string()))));
    assert_eq!(
        outcome_text(&o),
        "finished Err(\"An error as occured while creating user instance\")"
    );
}

#[test]
fn signup_fails_on_database_errors() {
    let mut s = Signup::start("bob".to_string(), "b@x.org".to_string(), "abc".to_string()).unwrap();
    let o = s.after_lookup(Err(()));
    assert_eq!(
        outcome_text(&o),
        "finished Err(\"An error as occured while creating user instance\")"
    );
    assert_eq!(
        Signup::after_insert(false),
        Err("An error as occured while creating user instance".to_string())
    );
}

#[test]
fn start_with_keeps_the_given_id_and_retries_on_its_collision() {
    let id = "0123456789abcdef0123456789abcd".to_string();
    let mut s = Signup::start_with("bob".to_string(), "b@x.org".to_string(), "abc".to_string(), id.clone()).unwrap();
    s.settle_token("T".repeat(128));
    let o = s.after_lookup(Ok(Some(("x".to_string(), id.clone(), "eve".to_string()))));
    assert_eq!(outcome_text(&o), "retry false true");
    s.replace_id("f".repeat(30));
    let o = s.after_lookup(Ok(None));
    assert!(outcome_text(&o).contains(&format!("\"{}\"", "f".repeat(30))));
    assert_eq!(
        Signup::start_with("n".repeat(33), String::new(), String::new(), id).err(),
        Some("Name cannot contain more than 32 caracters".to_string())
    );
}
