use conduit::dto::{Login, LoginDetails, Registration, RegistrationDetails, UpdateUser,
    UpdateUserDetail};
use conduit::store::Store;
use conduit::token::SessionMiddleware;
use conduit::user::{
    authentication_handler, follow_handler, get_current_user_handler, get_profile_handler, login,
    registration_handler, unfollow_handler, update_user_handler, RegistrationError,
    UpdateUserError,
};

const NOW: u64 = 1700000000;
const JACOB_PASSWORD: &str = "jakejake";

fn service() -> SessionMiddleware {
    SessionMiddleware::new("secret_key").issuer("conduit")
}

fn register_jacob(store: &mut Store) -> (String, String) {
    let user_name = "Jacob".to_string();
    let email = "jake@jake.jake".to_string();
    let reg = Registration {
        user: RegistrationDetails {
            email: email.clone(),
            username: user_name.clone(),
            password: JACOB_PASSWORD.to_string(),
        },
    };
    let res = registration_handler(store, &service(), &reg, NOW).unwrap();
    assert_eq!(res.user.email, email);
    assert_eq!(res.user.username, user_name);
    (user_name, email)
}

fn login_jacob(store: &Store, email: String, password: String) -> String {
    let req = Login { user: LoginDetails { email: email.clone(), password } };
    let res = authentication_handler(store, &service(), &req, NOW).unwrap();
    assert_eq!(res.user.email, email);
    res.user.token
}

fn follow_jacob(store: &mut Store) -> (String, String) {
    let (user_name, email) = register_jacob(store);
    let jwt = login_jacob(store, email, JACOB_PASSWORD.to_string());
    let uid = login(&service(), &jwt, NOW);
    let profile_result = follow_handler(store, &user_name, uid).unwrap();
    assert_eq!(profile_result.profile.username, user_name);
    assert!(profile_result.profile.following);
    (user_name, jwt)
}

#[test]
fn registration_test() {
    let mut store = Store::new();
    register_jacob(&mut store);
}

#[test]
fn login_test() {
    let mut store = Store::new();
    let (_user_name, email) = register_jacob(&mut store);
    login_jacob(&store, email, JACOB_PASSWORD.to_string());
}

#[test]
fn get_current_user_test() {
    let mut store = Store::new();
    let (user_name, email) = register_jacob(&mut store);
    let jwt = login_jacob(&store, email.clone(), JACOB_PASSWORD.to_string());

    let uid = login(&service(), &jwt, NOW);
    let res = get_current_user_handler(&store, &service(), uid, NOW).unwrap();
    assert_eq!(res.user.email, email);
    assert_eq!(res.user.username, user_name);
}

#[test]
fn update_user_test() {
    let mut store = Store::new();
    let (user_name, email) = register_jacob(&mut store);
    let jwt = login_jacob(&store, email.clone(), JACOB_PASSWORD.to_string());

    let uid = login(&service(), &jwt, NOW);
    let new_user_name = user_name + "_CH";
    let upd = UpdateUser {
        user: UpdateUserDetail {
            email: None,
            username: Some(new_user_name.clone()),
            bio: None,
            image: None,
            password: None,
        },
    };
    let res = update_user_handler(&mut store, &service(), uid, &upd, NOW).unwrap();
    assert_eq!(res.user.email, email);
    assert_eq!(res.user.username, new_user_name);
}

#[test]
#[should_panic]
fn get_current_user_fail_test() {
    let store = Store::new();
    let res = get_current_user_handler(&store, &service(), None, NOW).unwrap();
    assert_eq!(res.user.username, "nobody");
}

#[test]
#[should_panic]
fn login_fail_test() {
    let mut store = Store::new();
    let (_user_name, email) = register_jacob(&mut store);
    login_jacob(&store, email, JACOB_PASSWORD.to_string() + "!");
}

#[test]
fn profile_unlogged_test() {
    let mut store = Store::new();
    let (user_name, _email) = register_jacob(&mut store);

    let res = get_profile_handler(&store, &user_name, None).unwrap();
    assert_eq!(res.profile.username, user_name);
    assert!(!res.profile.following);
}

#[test]
fn follow_test() {
    let mut store = Store::new();
    follow_jacob(&mut store);
}

#[test]
fn profile_logged_test() {
    let mut store = Store::new();
    let (user_name, email) = register_jacob(&mut store);
    let jwt = login_jacob(&store, email, JACOB_PASSWORD.to_string());

    let uid = login(&service(), &jwt, NOW);
    let res = get_profile_handler(&store, &user_name, uid).unwrap();
    assert_eq!(res.profile.username, user_name);
    assert!(!res.profile.following);
}

#[test]
fn unfollow_test() {
    let mut store = Store::new();
    let (user_name, jwt) = follow_jacob(&mut store);

    let uid = login(&service(), &jwt, NOW);
    let res = unfollow_handler(&mut store, &user_name, uid).unwrap();
    assert_eq!(res.profile.username, user_name);
    assert!(!res.profile.following);
}

#[test]
fn follow_twice_single_edge_test() {
    let mut store = Store::new();
    let (user_name, jwt) = follow_jacob(&mut store);
    let uid = login(&service(), &jwt, NOW);

    let res = follow_handler(&mut store, &user_name, uid).unwrap();
    assert!(res.profile.following);
    assert_eq!(store.follows.len(), 1);
}

#[test]
fn unfollow_absent_edge_is_noop_test() {
    let mut store = Store::new();
    let (user_name, email) = register_jacob(&mut store);
    let jwt = login_jacob(&store, email, JACOB_PASSWORD.to_string());
    let uid = login(&service(), &jwt, NOW);

    let res = unfollow_handler(&mut store, &user_name, uid).unwrap();
    assert!(!res.profile.following);
    assert_eq!(store.follows.len(), 0);
}

#[test]
fn duplicate_registration_test() {
    let mut store = Store::new();
    register_jacob(&mut store);

    let same_email = Registration {
        user: RegistrationDetails {
            email: "jake@jake.jake".to_string(),
            username: "Somebody".to_string(),
            password: "password".to_string(),
        },
    };
    let err = registration_handler(&mut store, &service(), &same_email, NOW).unwrap_err();
    assert_eq!(err, RegistrationError::DuplicateEmail);

    let same_username = Registration {
        user: RegistrationDetails {
            email: "other@jake.jake".to_string(),
            username: "Jacob".to_string(),
            password: "password".to_string(),
        },
    };
    let err = registration_handler(&mut store, &service(), &same_username, NOW).unwrap_err();
    assert_eq!(err, RegistrationError::DuplicateUsername);
    assert_eq!(store.users.len(), 1);
}

#[test]
fn update_bio_only_preserves_rest_test() {
    let mut store = Store::new();
    let (user_name, email) = register_jacob(&mut store);
    let jwt = login_jacob(&store, email.clone(), JACOB_PASSWORD.to_string());
    let uid = login(&service(), &jwt, NOW);

    let upd = UpdateUser {
        user: UpdateUserDetail {
            email: None,
            username: None,
            bio: Some("I work at statefarm".to_string()),
            image: None,
            password: None,
        },
    };
    let res = update_user_handler(&mut store, &service(), uid, &upd, NOW).unwrap();
    assert_eq!(res.user.username, user_name);
    assert_eq!(res.user.email, email);
    assert_eq!(res.user.bio.as_deref(), Some("I work at statefarm"));
    assert!(res.user.image.is_none());

    let again = login_jacob(&store, email, JACOB_PASSWORD.to_string());
    assert!(!again.is_empty());
}

#[test]
fn update_user_anonymous_test() {
    let mut store = Store::new();
    register_jacob(&mut store);
    let upd = UpdateUser {
        user: UpdateUserDetail {
            email: None,
            username: Some("Intruder".to_string()),
            bio: None,
            image: None,
            password: None,
        },
    };
    let err = update_user_handler(&mut store, &service(), None, &upd, NOW).unwrap_err();
    assert_eq!(err, UpdateUserError::NotFound);
    assert_eq!(store.users[0].username, "Jacob");
}
