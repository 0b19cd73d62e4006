use conduit::token::{SessionMiddleware, TokenError, TokenLocation};

#[test]
fn it_works() {}

const T0: u64 = 1000;

fn service() -> SessionMiddleware {
    SessionMiddleware::new("secret_key").issuer("conduit").expiration_time(100)
}

#[test]
fn token_round_trip_window_test() {
    let sm = service();
    let token = sm.issue(42, T0).unwrap();
    assert_eq!(sm.verify(&token, T0), Ok(42));
    assert_eq!(sm.verify(&token, T0 + 50), Ok(42));
    assert_eq!(sm.verify(&token, T0 + 100), Ok(42));
    assert_eq!(sm.verify(&token, T0 - 1), Err(TokenError::NotYetValid));
    assert_eq!(sm.verify(&token, T0 + 101), Err(TokenError::Expired));
}

#[test]
fn token_bad_signature_test() {
    let sm = service();
    let other = SessionMiddleware::new("another_key").issuer("conduit").expiration_time(100);
    let token = sm.issue(7, T0).unwrap();
    assert_eq!(other.verify(&token, T0), Err(TokenError::BadSignature));
}

#[test]
fn token_malformed_test() {
    let sm = service();
    assert_eq!(sm.verify("not a token", T0), Err(TokenError::Malformed));
    assert_eq!(sm.verify("", T0), Err(TokenError::Malformed));
    assert_eq!(sm.verify("a.b.c", T0), Err(TokenError::Malformed));
}

#[test]
fn token_invalid_subject_test() {
    let sm = service();
    let token = sm.make_token(Some("not-a-number"), T0).unwrap();
    assert_eq!(sm.verify(&token, T0), Err(TokenError::InvalidSubject));
    let no_subject = sm.make_token(None, T0).unwrap();
    assert_eq!(sm.verify(&no_subject, T0), Err(TokenError::InvalidSubject));
}

#[test]
fn authorized_user_degrades_to_anonymous_test() {
    let sm = service();
    let token = sm.issue(9, T0).unwrap();
    assert_eq!(sm.authorized_user(Some(&token), T0), Some(9));
    assert_eq!(sm.authorized_user(Some(&token), T0 + 500), None);
    assert_eq!(sm.authorized_user(Some("garbage"), T0), None);
    assert_eq!(sm.authorized_user(None, T0), None);
}

#[test]
fn session_middleware_defaults_test() {
    let sm = SessionMiddleware::new("k");
    assert_eq!(sm.expiration_time, 86400);
    assert!(sm.issuer.is_none());
    match &sm.location {
        TokenLocation::Cookie(name) => assert_eq!(name, "jwt"),
        TokenLocation::AuthorizationHeader => panic!("default location should be a cookie"),
    }
    let sm = sm.using(TokenLocation::AuthorizationHeader);
    assert!(matches!(sm.location, TokenLocation::AuthorizationHeader));
}
